//! `clove plugin install`, `uninstall` and `update`.
//!
//! The policy — the gates, the consent rule, cargo's exact arguments, the rollback — is
//! in [`crate::registry::install`]. Here is what is decided between the steps that reach
//! outside: resolve a name against the registry, ask, run cargo, probe the result, and
//! report. Whatever an install rests on is fetched live; the discovery cache decides
//! nothing here.

use vstd::prelude::*;

use crate::cli::{PluginInstallArgs, PluginUpdateArgs};
use crate::cmd::plugin::push_lines;
use crate::error::{invalid, invalid_field, registry_error, registry_failure, told, CloveError, ErrorView};
use crate::json::{
    law_distinct_pairs_are_members, num, number, obj, object, string, string_or_null, text_or_null,
    texts, Json, JsonView,
};
use crate::output::{
    item_line, item_lines, jsonl_lines, law_a_line_carries_its_data,
    law_a_success_carries_its_data, meta_with_warnings, pairs, success, success_envelope,
    warnings_meta, Out, OutView, OutputFormat,
};
use crate::path;
use crate::plugin::{ProbeView, ProbedInfo, PLUGIN_API_VERSION};
use crate::registry::crates_io::{dependents_view, hits, probe_view, CratesIo};
use crate::registry::git_source;
use crate::registry::git_source::{chosen_ref, git_url_problem, GitPlugin, GitRef, GitRefView};
use crate::registry::install::{
    borrowed, cargo_failed, cargo_failure, cargo_missing, consent, consent_policy, dispatchable_bin, evaluate,
    foreign_install, foreign_install_message, gates_of, installed_binary_path_with, is_binary_path,
    law_passing_the_gates, no_cargo, own_bin, prompt, prompt_text, refusal, refusal_message, update_line,
    update_text, update_verdict, verdict_of, Consent, DependsOnPlugin, Gates, GatesView, UpdateVerdict, VerdictView,
};
use crate::registry::provenance::{
    bare_subcommand_with, find_by_subcommand, owner, subcommand, Installed, InstalledView,
};
use crate::registry::{
    candidate_crate_names, candidates, crate_name_problem, validate_crate_name, Fetch,
    FetchErrorView, PluginView, RegistryPlugin,
};
use crate::text;

verus! {

// ---- Output -------------------------------------------------------------------

/// The warnings as lines of stderr.
pub open spec fn warning_notes(warnings: Seq<Seq<char>>) -> Seq<OutView> {
    Seq::new(warnings.len(), |i: int| OutView::Note("warning: "@ + warnings[i]))
}

fn notes_of(warnings: &Vec<String>) -> (r: Vec<Out>)
    ensures
        r.deep_view() == warning_notes(warnings.deep_view()),
{
    let ghost all = warnings.deep_view();
    let mut out: Vec<Out> = Vec::new();
    let mut i: usize = 0;
    while i < warnings.len()
        invariant
            i <= warnings.len(),
            all == warnings.deep_view(),
            out.len() == i,
            forall|j: int|
                0 <= j < i ==> (#[trigger] out@[j]).deep_view() == OutView::Note(
                    "warning: "@ + all[j],
                ),
        decreases warnings.len() - i,
    {
        assert(all[i as int] == warnings@[i as int]@);
        out.push(Out::Note(text::cat2("warning: ", warnings[i].as_str())));
        i += 1;
    }
    assert(out.deep_view() =~= warning_notes(all));
    out
}

/// The result of a command: a line for people, an envelope with the warnings, or one
/// `jsonl` line, which carries no metadata, so that the warnings go to stderr.
pub open spec fn report(
    format: OutputFormat,
    data: JsonView,
    human: Seq<char>,
    warnings: Seq<Seq<char>>,
) -> Seq<OutView> {
    match format {
        OutputFormat::Human => seq![OutView::Text(human)],
        OutputFormat::Json => seq![OutView::Json(success(data, warnings_meta(warnings)))],
        OutputFormat::Jsonl => warning_notes(warnings) + item_lines(seq![data]),
    }
}

/// Renders the result of a command.
pub fn emit_with_warnings(
    format: OutputFormat,
    data: Json,
    human: &str,
    warnings: &Vec<String>,
) -> (r: Vec<Out>)
    ensures
        r.deep_view() == report(format, data.shape(), human@, warnings.deep_view()),
{
    match format {
        OutputFormat::Human => {
            let out: Vec<Out> = vec![Out::Text(human.to_owned())];
            assert(out.deep_view() =~= seq![OutView::Text(human@)]);
            out
        },
        OutputFormat::Json => {
            let meta = meta_with_warnings(warnings);
            let out: Vec<Out> = vec![Out::Json(success_envelope(data, meta))];
            assert(out.deep_view() =~= report(format, data.shape(), human@, warnings.deep_view()));
            out
        },
        OutputFormat::Jsonl => {
            let mut out = notes_of(warnings);
            let items: Vec<Json> = vec![data];
            assert(items.deep_view() =~= seq![data.shape()]);
            push_lines(&mut out, jsonl_lines(&items));
            out
        },
    }
}

/// Renders the result of a command that has nothing to warn of.
pub fn emit(format: OutputFormat, data: Json, human: &str) -> (r: Vec<Out>)
    ensures
        r.deep_view() == report(format, data.shape(), human@, Seq::empty()),
{
    let none: Vec<String> = Vec::new();
    assert(none.deep_view() =~= Seq::<Seq<char>>::empty());
    emit_with_warnings(format, data, human, &none)
}

/// The result of a command whose warnings people see as lines of stderr.
pub open spec fn warned_report(
    format: OutputFormat,
    data: JsonView,
    human: Seq<char>,
    warnings: Seq<Seq<char>>,
) -> Seq<OutView> {
    (if format == OutputFormat::Human {
        warning_notes(warnings)
    } else {
        Seq::empty()
    }) + report(format, data, human, warnings)
}

fn emit_warned(format: OutputFormat, data: Json, human: &str, warnings: &Vec<String>) -> (r: Vec<Out>)
    ensures
        r.deep_view() == warned_report(format, data.shape(), human@, warnings.deep_view()),
{
    let mut out: Vec<Out> = if format == OutputFormat::Human {
        notes_of(warnings)
    } else {
        Vec::new()
    };
    assert(out.deep_view() =~= if format == OutputFormat::Human {
        warning_notes(warnings.deep_view())
    } else {
        Seq::empty()
    });
    push_lines(&mut out, emit_with_warnings(format, data, human, warnings));
    out
}

// ---- Shadowing ----------------------------------------------------------------

/// The copy of a plugin that an install would shadow: what its subcommand resolves to
/// now, unless that is the file that the install writes.
pub open spec fn shadow_of(
    bin: Seq<char>,
    existing: Option<Seq<char>>,
    path: Seq<char>,
    exe_suffix: Seq<char>,
) -> Option<Seq<char>> {
    match (subcommand(bin, exe_suffix), existing) {
        (Some(_), Some(e)) => if e != path {
            Some(e)
        } else {
            None
        },
        _ => None,
    }
}

/// The plugin binary this install would shadow, if any. `existing` is the file that the
/// binary's subcommand resolves to now. The directory that clove installs into outranks
/// `$PATH`, so writing there takes over a subcommand that resolves elsewhere.
pub fn shadowed_binary(
    bin: &str,
    existing: Option<&str>,
    installed_path: &str,
    exe_suffix: &str,
) -> (r: Option<String>)
    ensures
        r.deep_view() == shadow_of(
            bin@,
            text::opt_view(existing),
            installed_path@,
            exe_suffix@,
        ),
{
    if bare_subcommand_with(bin, exe_suffix).is_none() {
        return None;
    }
    match existing {
        Some(e) => if text::same(e, installed_path) {
            None
        } else {
            Some(e.to_owned())
        },
        None => None,
    }
}

/// What is said of an install that would shadow a plugin already on the path.
pub open spec fn shadow_told(bin: Seq<char>, existing: Seq<char>) -> Seq<char> {
    "installing `"@ + bin + "` would shadow the `"@ + bin + "` already resolving from "@ + existing
        + ": clove's install root is searched before $PATH, so that copy would stop being used. Pass --force to install it anyway, or remove the existing one first."@
}

/// The refusal shown when an install would shadow a plugin already on the path.
pub fn shadow_refusal(bin: &str, existing: &str) -> (r: String)
    ensures
        r@ == shadow_told(bin@, existing@),
{
    text::cat7(
        "installing `",
        bin,
        "` would shadow the `",
        bin,
        "` already resolving from ",
        existing,
        ": clove's install root is searched before $PATH, so that copy would stop being used. Pass --force to install it anyway, or remove the existing one first.",
    )
}

// ---- Consent ------------------------------------------------------------------

/// What comes next once an install is otherwise clear.
#[derive(Debug, PartialEq, Eq)]
pub enum Step {
    /// Ask this, and go on only if the answer is yes.
    Ask(String),
    /// Run cargo.
    Run,
}

/// The model of a [`Step`].
pub enum StepView {
    Ask(Seq<char>),
    Run,
}

impl DeepView for Step {
    type V = StepView;

    open spec fn deep_view(&self) -> StepView {
        match *self {
            Step::Ask(p) => StepView::Ask(p@),
            Step::Run => StepView::Run,
        }
    }
}

/// Who is there to ask.
#[derive(Debug, Clone, Copy, PartialEq, Eq, Structural)]
pub struct Terminals {
    pub stdin: bool,
    pub stderr: bool,
}

/// What the consent rule leads to.
pub open spec fn asked(
    yes: bool,
    format: OutputFormat,
    tty: Terminals,
    question: Seq<char>,
) -> Result<StepView, ErrorView> {
    match consent(yes, format == OutputFormat::Human, tty.stdin, tty.stderr) {
        Consent::Granted => Ok(StepView::Run),
        Consent::Ask => Ok(StepView::Ask(question)),
        Consent::Refuse => Err(invalid_field("--yes"@, refusal())),
    }
}

/// The view of a decided step.
pub open spec fn step_view(r: Result<Step, CloveError>) -> Result<StepView, ErrorView> {
    match r {
        Ok(s) => Ok(s.deep_view()),
        Err(e) => Err(e.deep_view()),
    }
}

/// Applies the consent rule. Building a plugin runs third-party code, so it starts only
/// on an explicit yes: on the command line, or as the answer to `question`.
pub fn ask(yes: bool, format: OutputFormat, tty: Terminals, question: String) -> (r: Result<
    Step,
    CloveError,
>)
    ensures
        step_view(r) == asked(yes, format, tty, question@),
{
    match consent_policy(yes, format == OutputFormat::Human, tty.stdin, tty.stderr) {
        Consent::Granted => Ok(Step::Run),
        Consent::Ask => Ok(Step::Ask(question)),
        Consent::Refuse => Err(invalid("--yes", refusal_message())),
    }
}

/// What an install that is not to shadow anything, or may, leads to. `field` is what is
/// blamed.
pub open spec fn cleared_step(
    force: bool,
    yes: bool,
    format: OutputFormat,
    tty: Terminals,
    field: Seq<char>,
    bin: Seq<char>,
    shadowed: Option<Seq<char>>,
    question: Seq<char>,
) -> Result<StepView, ErrorView> {
    if shadowed is Some && !force {
        Err(invalid_field(field, shadow_told(bin, shadowed->0)))
    } else {
        asked(yes, format, tty, question)
    }
}

/// Nothing is built without an explicit yes: unless `--yes` was given, the next step is a
/// question, and that only where someone is there to answer it; and nothing is shadowed
/// unless `--force` was given.
pub proof fn law_cargo_runs_only_after_consent(
    force: bool,
    yes: bool,
    format: OutputFormat,
    tty: Terminals,
    field: Seq<char>,
    bin: Seq<char>,
    shadowed: Option<Seq<char>>,
    question: Seq<char>,
)
    ensures
        cleared_step(force, yes, format, tty, field, bin, shadowed, question) == Ok::<
            StepView,
            ErrorView,
        >(StepView::Run) ==> yes && (shadowed is Some ==> force),
        cleared_step(force, yes, format, tty, field, bin, shadowed, question) matches Ok(
            StepView::Ask(_),
        ) ==> format == OutputFormat::Human && tty.stdin && tty.stderr && (shadowed is Some
            ==> force),
{
}

/// The result of an install that the user did not want after all.
pub open spec fn declined() -> JsonView {
    obj(seq![("installed"@, JsonView::Bool(false)), ("declined"@, JsonView::Bool(true))])
}

/// What is printed when the user says no.
pub fn emit_declined(format: OutputFormat) -> (r: Vec<Out>)
    ensures
        r.deep_view() == report(format, declined(), "not installed"@, Seq::empty()),
{
    let v: Vec<(String, Json)> = vec![
        ("installed".to_owned(), Json::Bool(false)),
        ("declined".to_owned(), Json::Bool(true)),
    ];
    assert(pairs(v@) =~= seq![
        ("installed"@, JsonView::Bool(false)),
        ("declined"@, JsonView::Bool(true)),
    ]);
    emit(format, object(v), "not installed")
}

// ---- What to install ----------------------------------------------------------

/// Where an install comes from.
#[derive(Debug, PartialEq, Eq)]
pub enum Origin {
    Git(String),
    Registry(String),
}

/// `clove plugin install <name>` or `--git <url>`: the repository wins where both are
/// given.
pub fn run_install(args: &PluginInstallArgs) -> (r: Result<Origin, CloveError>)
    ensures
        match r {
            Ok(Origin::Git(url)) => args.git.deep_view() == Some(url@),
            Ok(Origin::Registry(name)) => args.git is None && args.name.deep_view() == Some(name@),
            Err(e) => args.git is None && args.name is None && e.deep_view() == invalid_field(
                "name"@,
                "name a plugin to install, or pass --git <url>"@,
            ),
        },
{
    match &args.git {
        Some(url) => Ok(Origin::Git(url.clone())),
        None => match &args.name {
            Some(name) => Ok(Origin::Registry(name.clone())),
            None => Err(
                invalid("name", "name a plugin to install, or pass --git <url>".to_owned()),
            ),
        },
    }
}

/// The crates that could be installed: those that build a binary of their own name.
pub open spec fn installable(found: Seq<PluginView>) -> Seq<PluginView>
    decreases found.len(),
{
    if found.len() == 0 {
        Seq::empty()
    } else {
        let rest = installable(found.drop_last());
        if own_bin(found.last()) is Ok {
            rest.push(found.last())
        } else {
            rest
        }
    }
}

/// The names of the crates.
pub open spec fn crate_names(found: Seq<PluginView>) -> Seq<Seq<char>> {
    Seq::new(found.len(), |i: int| found[i].crate_name)
}

/// The crate that a name stands for, given the crates that exist under the names it may
/// mean. Those that can be installed decide; where none can, all of them do, so that the
/// reason comes out. One is the answer, none and several are refused.
pub open spec fn chosen(name: Seq<char>, found: Seq<PluginView>) -> Result<PluginView, ErrorView> {
    let deciding = if installable(found).len() > 0 {
        installable(found)
    } else {
        found
    };
    if deciding.len() == 0 {
        Err(
            invalid_field(
                "name"@,
                "no plugin named `"@ + name + "` is published on crates.io (looked for "@
                    + text::joined(candidates(name), ", "@)
                    + "). Run `clove plugin list --all` to see what is published, or install from source with `clove plugin install --git <url>`."@,
            ),
        )
    } else if deciding.len() == 1 {
        Ok(deciding[0])
    } else {
        Err(
            invalid_field(
                "name"@,
                "`"@ + name + "` is ambiguous — "@ + text::joined(crate_names(deciding), ", "@)
                    + " all exist. Install one by its exact crate name."@,
            ),
        )
    }
}

fn installable_of(found: &Vec<RegistryPlugin>) -> (r: Vec<RegistryPlugin>)
    ensures
        r.deep_view() == installable(found.deep_view()),
{
    let ghost all = found.deep_view();
    let mut out: Vec<RegistryPlugin> = Vec::new();
    let mut i: usize = 0;
    assert(out.deep_view() =~= installable(all.take(0)));
    while i < found.len()
        invariant
            i <= found.len(),
            all == found.deep_view(),
            out.deep_view() == installable(all.take(i as int)),
        decreases found.len() - i,
    {
        let ghost prev = out.deep_view();
        assert(all.take(i + 1).drop_last() =~= all.take(i as int));
        assert(all[i as int] == found@[i as int].deep_view());
        if dispatchable_bin(&found[i]).is_ok() {
            out.push(found[i].clone());
            assert(out.deep_view() =~= prev.push(all[i as int]));
        }
        i += 1;
    }
    assert(all.take(i as int) =~= all);
    out
}

fn crate_names_of(found: &Vec<RegistryPlugin>) -> (r: Vec<String>)
    ensures
        r.deep_view() == crate_names(found.deep_view()),
{
    let ghost all = found.deep_view();
    let mut out: Vec<String> = Vec::new();
    let mut i: usize = 0;
    while i < found.len()
        invariant
            i <= found.len(),
            all == found.deep_view(),
            out.len() == i,
            forall|j: int| 0 <= j < i ==> (#[trigger] out@[j])@ == all[j].crate_name,
        decreases found.len() - i,
    {
        assert(all[i as int] == found@[i as int].deep_view());
        out.push(found[i].crate_name.clone());
        i += 1;
    }
    assert(out.deep_view() =~= crate_names(all));
    out
}

/// Picks the crate that a name stands for among those that exist. A unique answer is
/// required: which multiplexer wins is not for an install to decide.
pub fn choose_candidate(name: &str, found: Vec<RegistryPlugin>) -> (r: Result<
    RegistryPlugin,
    CloveError,
>)
    ensures
        crate::error::outcome(r) == chosen(name@, found.deep_view()),
{
    let good = installable_of(&found);
    assert(good.deep_view().len() == good.len());
    assert(found.deep_view().len() == found.len());
    let mut deciding = if good.len() > 0 {
        good
    } else {
        found
    };
    assert(deciding.deep_view().len() == deciding.len());
    if deciding.len() == 0 {
        let names = candidate_crate_names(name);
        let list = text::join(&names, ", ");
        Err(
            invalid(
                "name",
                text::cat5(
                    "no plugin named `",
                    name,
                    "` is published on crates.io (looked for ",
                    list.as_str(),
                    "). Run `clove plugin list --all` to see what is published, or install from source with `clove plugin install --git <url>`.",
                ),
            ),
        )
    } else if deciding.len() == 1 {
        assert(deciding.deep_view()[0] == deciding@[0].deep_view());
        Ok(deciding.remove(0))
    } else {
        let names = crate_names_of(&deciding);
        let list = text::join(&names, ", ");
        Err(
            invalid(
                "name",
                text::cat5(
                    "`",
                    name,
                    "` is ambiguous — ",
                    list.as_str(),
                    " all exist. Install one by its exact crate name.",
                ),
            ),
        )
    }
}

/// A crate that nobody could install never stands in the way of one that can be.
pub proof fn law_squatters_do_not_deny_a_name(name: Seq<char>, found: Seq<PluginView>)
    requires
        installable(found).len() == 1,
    ensures
        chosen(name, found) == Ok::<PluginView, ErrorView>(installable(found)[0]),
{
}

/// What a command reports of a registry that could not be asked.
pub open spec fn unreachable_registry(e: FetchErrorView) -> ErrorView {
    ErrorView::Registry { message: e.message() }
}

/// What a walk over the registry tells of the crates that depend on the plugin library.
pub open spec fn dependents_of(
    end: Result<Option<Seq<PluginView>>, FetchErrorView>,
) -> Result<Option<Seq<Seq<char>>>, ErrorView> {
    match end {
        Ok(Some(found)) => Ok(Some(crate_names(found))),
        Ok(None) => Ok(None),
        Err(e) => Err(unreachable_registry(e)),
    }
}

/// The names of the crates that depend on the plugin library, asked of the live registry:
/// the evidence of the first gate. `None` means that there is no registry yet; a registry
/// that cannot be asked is a failure, for a gate that could not run is not one that passed.
pub fn dependents<F: Fetch + ?Sized>(client: &CratesIo<F>) -> (r: Result<
    Option<Vec<String>>,
    CloveError,
>)
    ensures
        exists|end: Result<Option<Seq<PluginView>>, FetchErrorView>| #[trigger]
            client.may_gather("clove-plugin"@, end) && crate::error::outcome(r) == dependents_of(
                end,
            ),
{
    let answer = client.reverse_dependents("clove-plugin");
    let ghost end = dependents_view(answer);
    assert(client.may_gather("clove-plugin"@, end));
    match answer {
        Ok(Some(found)) => Ok(Some(crate_names_of(&found))),
        Ok(None) => Ok(None),
        Err(e) => Err(e.into_error()),
    }
}

/// Can resolving a name that is a crate name come to this: the choice among what the probes
/// for its candidates found, or the failure that one of them met?
pub open spec fn may_resolve<F: Fetch + ?Sized>(
    client: &CratesIo<F>,
    name: Seq<char>,
    end: Result<PluginView, ErrorView>,
) -> bool {
    let names = candidates(name);
    ||| exists|answers: Seq<Option<PluginView>>| #[trigger]
        client.answered(names, answers) && answers.len() == names.len() && end == chosen(
            name,
            hits(answers),
        )
    ||| exists|answers: Seq<Option<PluginView>>, e: FetchErrorView| #[trigger]
        client.stopped(names, answers, e) && end == Err::<PluginView, ErrorView>(
            unreachable_registry(e),
        )
}

/// Resolves the user's argument to exactly one published crate: every name it may mean
/// is probed, and [`choose_candidate`] decides. A name that is no crate name is refused
/// unasked; a transport failure aborts, so that a flaky network is never reported as "no
/// such plugin".
pub fn resolve_candidate<F: Fetch + ?Sized>(client: &CratesIo<F>, name: &str) -> (r: Result<
    RegistryPlugin,
    CloveError,
>)
    ensures
        match crate_name_problem(name@) {
            Some(e) => crate::error::outcome(r) == Err::<PluginView, ErrorView>(e),
            None => may_resolve(client, name@, crate::error::outcome(r)),
        },
{
    match validate_crate_name(name) {
        Ok(()) => {},
        Err(e) => return Err(e),
    }
    let names = candidate_crate_names(name);
    let ghost asked = names.deep_view();
    let ghost mut answers: Seq<Option<PluginView>> = Seq::empty();
    let mut found: Vec<RegistryPlugin> = Vec::new();
    let mut i: usize = 0;
    assert(found.deep_view() =~= hits(answers));
    while i < names.len()
        invariant
            i <= names.len(),
            asked == names.deep_view(),
            asked == candidates(name@),
            crate_name_problem(name@) is None,
            answers.len() == i,
            client.answered(asked, answers),
            found.deep_view() == hits(answers),
        decreases names.len() - i,
    {
        assert(asked[i as int] == names@[i as int]@);
        let ghost before = answers;
        let ghost prev = found.deep_view();
        match client.crate_exists(names[i].as_str()) {
            Ok(Some(p)) => {
                proof {
                    answers = answers.push(Some(p.deep_view()));
                    assert(answers.drop_last() =~= before);
                }
                found.push(p);
                assert(found.deep_view() =~= prev.push(p.deep_view()));
            },
            Ok(None) => {
                proof {
                    answers = answers.push(None);
                    assert(answers.drop_last() =~= before);
                }
            },
            Err(e) => {
                assert(client.stopped(asked, answers, e.deep_view()));
                return Err(e.into_error());
            },
        }
        i += 1;
    }
    choose_candidate(name, found)
}

// ---- Installing from crates.io ------------------------------------------------

/// The subcommand that the resolved binary dispatches as, or nothing.
pub open spec fn gate_subcommand(g: GatesView, exe_suffix: Seq<char>) -> Seq<char> {
    match g.dispatchable_bin {
        Some(bin) => match subcommand(bin, exe_suffix) {
            Some(s) => s,
            None => Seq::empty(),
        },
        None => Seq::empty(),
    }
}

/// The subcommand the resolved binary will dispatch as.
pub fn subcommand_of<'a>(gates: &'a Gates, exe_suffix: &str) -> (r: &'a str)
    ensures
        r@ == gate_subcommand(gates.deep_view(), exe_suffix@),
{
    proof {
        reveal_strlit("");
        assert(""@ =~= Seq::<char>::empty());
    }
    match &gates.dispatchable_bin {
        Some(bin) => match bare_subcommand_with(bin.as_str(), exe_suffix) {
            Some(s) => s,
            None => "",
        },
        None => "",
    }
}

/// Why a crate is not installed, whoever asks: its name, its gates, or that every
/// version is yanked.
pub open spec fn refused(
    c: PluginView,
    dependents: Option<Seq<Seq<char>>>,
    strict: bool,
    allow_yanked: bool,
) -> Option<ErrorView> {
    let g = gates_of(c, dependents);
    if crate_name_problem(c.crate_name) is Some {
        crate_name_problem(c.crate_name)
    } else if g.blocked(strict) is Some {
        Some(invalid_field("name"@, g.blocked(strict)->0))
    } else if g.yanked && !allow_yanked {
        Some(
            invalid_field(
                "name"@,
                "every published version of `"@ + c.crate_name
                    + "` is yanked; pass --allow-yanked to install one anyway"@,
            ),
        )
    } else {
        None
    }
}

/// An install that was vetted.
#[derive(Debug, PartialEq, Eq)]
pub enum Vetted {
    /// It is there already; this is printed.
    AlreadyInstalled(Vec<Out>),
    /// It may go on.
    Cleared(Cleared),
}

/// An install that passed the gates.
#[derive(Debug, PartialEq, Eq)]
pub struct Cleared {
    pub candidate: RegistryPlugin,
    pub gates: Gates,
    /// The binary that will be installed.
    pub bin: String,
    /// The file that it will be.
    pub path: String,
}

/// The object that says a plugin is there already.
pub open spec fn already_there(i: InstalledView) -> JsonView {
    obj(
        seq![
            ("installed"@, JsonView::Bool(false)),
            ("already_installed"@, JsonView::Bool(true)),
            ("package"@, JsonView::Text(i.package)),
            ("version"@, JsonView::Text(i.version)),
        ],
    )
}

fn emit_already(format: OutputFormat, existing: &Installed) -> (r: Vec<Out>)
    ensures
        r.deep_view() == report(
            format,
            already_there(existing.deep_view()),
            existing.package@ + " "@ + existing.version@
                + " is already installed (--force to reinstall)"@,
            Seq::empty(),
        ),
{
    let v: Vec<(String, Json)> = vec![
        ("installed".to_owned(), Json::Bool(false)),
        ("already_installed".to_owned(), Json::Bool(true)),
        ("package".to_owned(), string(existing.package.as_str())),
        ("version".to_owned(), string(existing.version.as_str())),
    ];
    assert(pairs(v@) =~= seq![
        ("installed"@, JsonView::Bool(false)),
        ("already_installed"@, JsonView::Bool(true)),
        ("package"@, JsonView::Text(existing.package@)),
        ("version"@, JsonView::Text(existing.version@)),
    ]);
    let line = text::cat4(
        existing.package.as_str(),
        " ",
        existing.version.as_str(),
        " is already installed (--force to reinstall)",
    );
    emit(format, object(v), line.as_str())
}

/// The view of the dependents' names.
pub open spec fn names_view(names: Option<&Vec<String>>) -> Option<Seq<Seq<char>>> {
    match names {
        Some(v) => Some(v.deep_view()),
        None => None,
    }
}

/// Runs the gates on a candidate. `dependents` are the crates that depend on
/// `clove-plugin`, fetched live: `None` where that crate itself is not published.
/// `installed` is what clove installed under `home`.
pub fn vet(
    format: OutputFormat,
    args: &PluginInstallArgs,
    candidate: RegistryPlugin,
    dependents: Option<&Vec<String>>,
    installed: &Vec<Installed>,
    home: &str,
    exe_suffix: &str,
) -> (r: Result<Vetted, CloveError>)
    ensures
        ({
            let c = candidate.deep_view();
            let g = gates_of(c, names_view(dependents));
            let no = refused(c, names_view(dependents), args.strict, args.allow_yanked);
            let there = owner(installed.deep_view(), gate_subcommand(g, exe_suffix@), exe_suffix@);
            match r {
                Err(e) => no == Some(e.deep_view()),
                Ok(Vetted::AlreadyInstalled(out)) => no is None && !args.force && there is Some
                    && out.deep_view() == report(
                    format,
                    already_there(there->0),
                    there->0.package + " "@ + there->0.version
                        + " is already installed (--force to reinstall)"@,
                    Seq::empty(),
                ),
                Ok(Vetted::Cleared(ok)) => no is None && (args.force || there is None)
                    && ok.candidate.deep_view() == c && ok.gates.deep_view() == g
                    && g.dispatchable_bin == Some(ok.bin@) && (path::is_component(
                    ok.bin@ + exe_suffix@,
                ) ==> is_binary_path(home@, ok.bin@, exe_suffix@, ok.path@)),
            }
        }),
{
    match validate_crate_name(candidate.crate_name.as_str()) {
        Ok(()) => {},
        Err(e) => return Err(e),
    }
    let gates = evaluate(&candidate, dependents);
    if let Some(reason) = gates.blocking_reason(args.strict) {
        return Err(invalid("name", reason));
    }
    if gates.yanked && !args.allow_yanked {
        return Err(
            invalid(
                "name",
                text::cat3(
                    "every published version of `",
                    candidate.crate_name.as_str(),
                    "` is yanked; pass --allow-yanked to install one anyway",
                ),
            ),
        );
    }
    if !args.force {
        if let Some(existing) = find_by_subcommand(
            installed,
            subcommand_of(&gates, exe_suffix),
            exe_suffix,
        ) {
            return Ok(Vetted::AlreadyInstalled(emit_already(format, existing)));
        }
    }
    let bin: String = match &gates.dispatchable_bin {
        Some(b) => b.clone(),
        None => {
            proof {
                law_passing_the_gates(
                    candidate.deep_view(),
                    names_view(dependents),
                    args.strict,
                );
            }
            String::new()
        },
    };
    let path = installed_binary_path_with(home, bin.as_str(), exe_suffix);
    Ok(Vetted::Cleared(Cleared { candidate, gates, bin, path }))
}

impl Cleared {
    /// What comes next: a refusal to shadow, the question, or the build. `shadowed` is
    /// the copy that would be shadowed.
    pub fn next(
        &self,
        format: OutputFormat,
        args: &PluginInstallArgs,
        shadowed: Option<&str>,
        tty: Terminals,
    ) -> (r: Result<Step, CloveError>)
        ensures
            step_view(r) == cleared_step(
                args.force,
                args.yes,
                format,
                tty,
                "name"@,
                self.bin@,
                text::opt_view(shadowed),
                prompt(
                    self.candidate.deep_view(),
                    self.gates.deep_view(),
                    text::opt_view(shadowed),
                ),
            ),
    {
        if let Some(existing) = shadowed {
            if !args.force {
                return Err(invalid("name", shadow_refusal(self.bin.as_str(), existing)));
            }
        }
        ask(args.yes, format, tty, prompt_text(&self.candidate, &self.gates, shadowed))
    }

    /// cargo's arguments for this install.
    pub fn argv(&self, home: &str, force: bool) -> (r: Vec<String>)
        ensures
            r.deep_view() == crate::registry::install::install_args(
                self.candidate.crate_name@,
                self.gates.version.deep_view(),
                self.bin@,
                home@,
                force,
            ),
    {
        crate::registry::install::cargo_install_argv(
            self.candidate.crate_name.as_str(),
            borrowed(&self.gates.version),
            self.bin.as_str(),
            home,
            force,
        )
    }
}

/// What is built for a candidate that was vetted is the crate's own binary, at the
/// version that was shown, and the registry has not disowned it.
pub proof fn law_only_a_plugins_own_binary_is_built(
    c: PluginView,
    dependents: Option<Seq<Seq<char>>>,
    strict: bool,
    allow_yanked: bool,
)
    requires
        refused(c, dependents, strict, allow_yanked) is None,
    ensures
        gates_of(c, dependents).dispatchable_bin == Some(c.crate_name),
        c.bin_names.contains(c.crate_name),
        crate::registry::is_crate_name(c.crate_name),
        dependents matches Some(names) ==> names.contains(c.crate_name),
        strict ==> dependents is Some,
        c.is_yanked() ==> allow_yanked,
{
    law_passing_the_gates(c, dependents, strict);
    crate::registry::law_accepted_names_are_the_legal_ones(c.crate_name);
}

// ---- After the build ----------------------------------------------------------

/// Why a freshly built plugin cannot be used with this clove.
pub open spec fn unusable(package: Seq<char>, probe: Option<ProbeView>) -> Option<Seq<char>> {
    match probe {
        Some(p) => if p.min_clove_plugin_api > PLUGIN_API_VERSION {
            Some(
                "`"@ + package + "` needs a newer clove (it requires plugin API "@ + text::decimal(
                    p.min_clove_plugin_api as nat,
                ) + ", this clove provides "@ + text::decimal(PLUGIN_API_VERSION as nat) + ")"@,
            )
        } else {
            None
        },
        None => None,
    }
}

/// The view of an optional answer.
pub open spec fn answer_view(probe: Option<&ProbedInfo>) -> Option<ProbeView> {
    match probe {
        Some(p) => Some(p.deep_view()),
        None => None,
    }
}

/// Why the freshly installed binary is unusable with this clove, if it is. It was built
/// already, so this is a matter of compatibility, not of safety, and the install is
/// rolled back.
pub fn incompatible_reason(package: &str, probe: Option<&ProbedInfo>) -> (r: Option<String>)
    ensures
        r.deep_view() == unusable(package@, answer_view(probe)),
{
    match probe {
        Some(p) => if p.min_clove_plugin_api > PLUGIN_API_VERSION {
            let needs = text::decimal_of(p.min_clove_plugin_api as u64);
            let has = text::decimal_of(PLUGIN_API_VERSION as u64);
            Some(
                text::cat7(
                    "`",
                    package,
                    "` needs a newer clove (it requires plugin API ",
                    needs.as_str(),
                    ", this clove provides ",
                    has.as_str(),
                    ")",
                ),
            )
        } else {
            None
        },
        None => None,
    }
}

/// What is said of a rollback: that it worked only if cargo said so and the file is
/// gone, and otherwise what to delete.
pub open spec fn rollback_told(
    reason: Seq<char>,
    path: Seq<char>,
    uninstalled: bool,
    still_there: bool,
) -> Seq<char> {
    if uninstalled && !still_there {
        reason + "; the install has been rolled back"@
    } else {
        reason + ". Rolling the install back FAILED — `"@ + path
            + "` is still present and is on the plugin search path. Remove it manually."@
    }
}

spec fn without_ha(s: Seq<char>) -> bool {
    forall|i: int| 0 <= i && i + 1 < s.len() && #[trigger] s[i] == 'h' ==> s[i + 1] != 'a'
}

proof fn lemma_without_ha(a: Seq<char>, b: Seq<char>)
    requires
        without_ha(a),
        without_ha(b),
        a.len() > 0,
        a.last() != 'h',
    ensures
        without_ha(a + b),
{
    let s = a + b;
    assert forall|i: int| 0 <= i && i + 1 < s.len() && #[trigger] s[i] == 'h' implies s[i + 1]
        != 'a' by {
        if i < a.len() {
            assert(a[i] == 'h');
            if i + 1 < a.len() {
                assert(s[i + 1] == a[i + 1]);
            }
        } else {
            assert(b[i - a.len()] == 'h');
            assert(s[i + 1] == b[i - a.len() + 1]);
        }
    }
}

proof fn lemma_no_claim(s: Seq<char>)
    requires
        without_ha(s),
    ensures
        !text::occurs(s, "has been rolled back"@),
{
    reveal_strlit("has been rolled back");
    let claim = "has been rolled back"@;
    if text::occurs(s, claim) {
        let i = choose|i: int| text::occurs_at(s, claim, i);
        let w = s.subrange(i, i + claim.len());
        assert(w[0] == s[i] && w[1] == s[i + 1]);
        assert(s[i] == 'h');
    }
}

/// A rollback that failed is told as one: the message names the file and says that it
/// failed. It does not claim that anything was rolled back; only the name of the package or
/// the path could hold such words.
pub proof fn law_a_failed_rollback_claims_nothing(
    package: Seq<char>,
    probe: Option<ProbeView>,
    path: Seq<char>,
    uninstalled: bool,
    still_there: bool,
)
    requires
        unusable(package, probe) is Some,
        !uninstalled || still_there,
    ensures
        ({
            let told = rollback_told(unusable(package, probe)->0, path, uninstalled, still_there);
            let claim = "has been rolled back"@;
            &&& text::occurs(told, path)
            &&& text::occurs(told, "Rolling the install back FAILED"@)
            &&& text::occurs(told, claim) ==> text::occurs(package, claim) || text::occurs(
                path,
                claim,
            )
        }),
{
    let reason = unusable(package, probe)->0;
    let told = rollback_told(reason, path, uninstalled, still_there);
    let claim = "has been rolled back"@;
    let d1 = text::decimal(probe->0.min_clove_plugin_api as nat);
    let d2 = text::decimal(PLUGIN_API_VERSION as nat);
    let a = " needs a newer clove (it requires plugin API "@;
    let b = ", this clove provides "@;
    let c = "). Rolling the install back FAILED — "@;
    let tail = " is still present and is on the plugin search path. Remove it manually."@;
    reveal_strlit("`");
    reveal_strlit(")");
    reveal_strlit("` needs a newer clove (it requires plugin API ");
    reveal_strlit(" needs a newer clove (it requires plugin API ");
    reveal_strlit(", this clove provides ");
    reveal_strlit(". Rolling the install back FAILED — `");
    reveal_strlit("). Rolling the install back FAILED — ");
    reveal_strlit("` is still present and is on the plugin search path. Remove it manually.");
    reveal_strlit(" is still present and is on the plugin search path. Remove it manually.");
    reveal_strlit("Rolling the install back FAILED");
    assert("`"@ =~= seq!['`']);
    assert("` needs a newer clove (it requires plugin API "@ =~= seq!['`'] + a);
    assert(")"@ + ". Rolling the install back FAILED — `"@ =~= c.push('`'));
    assert("` is still present and is on the plugin search path. Remove it manually."@
        =~= seq!['`'] + tail);
    let mid = a + d1 + b + d2 + c;
    let from_path = path.push('`') + tail;
    let from_mid = mid.push('`') + from_path;
    let from_package = package.push('`') + from_mid;
    assert(told =~= Seq::<char>::empty().push('`') + from_package);
    text::law_decimal_reads_back(probe->0.min_clove_plugin_api as nat);
    text::law_decimal_reads_back(PLUGIN_API_VERSION as nat);
    assert(without_ha(a));
    assert(without_ha(b));
    assert(without_ha(c));
    assert(without_ha(tail));
    lemma_without_ha(a, d1);
    lemma_without_ha(a + d1, b);
    lemma_without_ha(a + d1 + b, d2);
    lemma_without_ha(a + d1 + b + d2, c);
    lemma_no_claim(mid);
    lemma_no_claim(tail);
    lemma_no_claim(Seq::empty());
    assert(!claim.contains('`')) by {
        reveal_strlit("has been rolled back");
    }
    if text::occurs(told, claim) {
        text::lemma_occurs_apart(Seq::empty(), '`', from_package, claim);
        if !text::occurs(package, claim) {
            text::lemma_occurs_apart(package, '`', from_mid, claim);
            text::lemma_occurs_apart(mid, '`', from_path, claim);
            if !text::occurs(path, claim) {
                text::lemma_occurs_apart(path, '`', tail, claim);
            }
        }
    }
    let at: int = (2 + package.len() + mid.len() + 1) as int;
    assert(told.subrange(at, at + path.len()) =~= path);
    assert(text::occurs_at(told, path, at));
    let word = "Rolling the install back FAILED"@;
    let w: int = (2 + package.len() + mid.len()) - c.len() + 3;
    assert(told.subrange(w, w + word.len()) =~= word);
    assert(text::occurs_at(told, word, w));
}

/// Reports whether a rejected install was removed. cargo's word is not enough: it can
/// succeed and leave a binary that another package also claims.
pub fn roll_back(reason: &str, installed_path: &str, uninstalled: bool, still_there: bool) -> (r:
    String)
    ensures
        r@ == rollback_told(reason@, installed_path@, uninstalled, still_there),
{
    if uninstalled && !still_there {
        text::cat2(reason, "; the install has been rolled back")
    } else {
        text::cat4(
            reason,
            ". Rolling the install back FAILED — `",
            installed_path,
            "` is still present and is on the plugin search path. Remove it manually.",
        )
    }
}

/// The warnings of a registry install that worked.
pub open spec fn install_warnings(
    package: Seq<char>,
    bin: Seq<char>,
    probe: Option<ProbeView>,
    shadowed: Option<Seq<char>>,
    depends: DependsOnPlugin,
) -> Seq<Seq<char>> {
    (match probe {
        Some(p) => if p.max_clove_plugin_api < PLUGIN_API_VERSION {
            seq![
                "`"@ + package + "` predates this clove (plugin API "@ + text::decimal(
                    p.max_clove_plugin_api as nat,
                ) + " < "@ + text::decimal(PLUGIN_API_VERSION as nat)
                    + "); it will run, but may not understand everything this version sends"@,
            ]
        } else {
            Seq::empty()
        },
        None => seq![
            "`"@ + package
                + "` did not answer --clove-plugin-info; it is installed, but clove cannot report what it provides"@,
        ],
    }) + (match shadowed {
        Some(e) => seq!["`"@ + bin + "` now shadows the copy at "@ + e],
        None => Seq::empty(),
    }) + (if depends == DependsOnPlugin::Unverifiable {
        seq![
            "could not verify that `"@ + package
                + "` depends on `clove-plugin`: it is installed, but the check that distinguishes a clove plugin from any other crate did not run (pass --strict to make this fatal)"@,
        ]
    } else {
        Seq::empty()
    })
}

fn warnings_of(
    package: &str,
    bin: &str,
    probe: Option<&ProbedInfo>,
    shadowed: Option<&str>,
    depends: DependsOnPlugin,
) -> (r: Vec<String>)
    ensures
        r.deep_view() == install_warnings(
            package@,
            bin@,
            answer_view(probe),
            text::opt_view(shadowed),
            depends,
        ),
{
    let mut out: Vec<String> = Vec::new();
    match probe {
        Some(p) => if p.max_clove_plugin_api < PLUGIN_API_VERSION {
            let has = text::decimal_of(p.max_clove_plugin_api as u64);
            let host = text::decimal_of(PLUGIN_API_VERSION as u64);
            out.push(
                text::cat7(
                    "`",
                    package,
                    "` predates this clove (plugin API ",
                    has.as_str(),
                    " < ",
                    host.as_str(),
                    "); it will run, but may not understand everything this version sends",
                ),
            );
        },
        None => {
            out.push(
                text::cat3(
                    "`",
                    package,
                    "` did not answer --clove-plugin-info; it is installed, but clove cannot report what it provides",
                ),
            );
        },
    }
    if let Some(e) = shadowed {
        out.push(text::cat4("`", bin, "` now shadows the copy at ", e));
    }
    if depends == DependsOnPlugin::Unverifiable {
        out.push(
            text::cat3(
                "could not verify that `",
                package,
                "` depends on `clove-plugin`: it is installed, but the check that distinguishes a clove plugin from any other crate did not run (pass --strict to make this fatal)",
            ),
        );
    }
    assert(out.deep_view() =~= install_warnings(
        package@,
        bin@,
        answer_view(probe),
        text::opt_view(shadowed),
        depends,
    ));
    out
}

/// The object of a registry install that worked.
pub open spec fn installed_data(
    package: Seq<char>,
    version: Option<Seq<char>>,
    bin: Seq<char>,
    path: Seq<char>,
) -> JsonView {
    obj(
        seq![
            ("installed"@, JsonView::Bool(true)),
            ("package"@, JsonView::Text(package)),
            ("version"@, text_or_null(version)),
            ("binary"@, JsonView::Text(bin)),
            ("path"@, JsonView::Text(path)),
        ],
    )
}

/// The line of a registry install that worked.
pub open spec fn installed_told(
    package: Seq<char>,
    version: Option<Seq<char>>,
    bin: Seq<char>,
) -> Seq<char> {
    "installed "@ + package + " "@ + (match version {
        Some(v) => v,
        None => "?"@,
    }) + " as "@ + bin
}

/// What comes of a build.
#[derive(Debug, PartialEq, Eq)]
pub enum Built {
    /// The plugin is there; this is printed.
    Done(Vec<Out>),
    /// The plugin cannot be used, for this reason: remove it.
    RollBack(String),
}

impl Cleared {
    /// Judges the freshly built plugin by what it answered, and reports.
    pub fn built(&self, format: OutputFormat, shadowed: Option<&str>, probe: Option<&ProbedInfo>) -> (r:
        Built)
        ensures
            match r {
                Built::RollBack(reason) => unusable(
                    self.candidate.crate_name@,
                    answer_view(probe),
                ) == Some(reason@),
                Built::Done(out) => unusable(self.candidate.crate_name@, answer_view(probe)) is None
                    && out.deep_view() == warned_report(
                    format,
                    installed_data(
                        self.candidate.crate_name@,
                        self.gates.version.deep_view(),
                        self.bin@,
                        self.path@,
                    ),
                    installed_told(
                        self.candidate.crate_name@,
                        self.gates.version.deep_view(),
                        self.bin@,
                    ),
                    install_warnings(
                        self.candidate.crate_name@,
                        self.bin@,
                        answer_view(probe),
                        text::opt_view(shadowed),
                        self.gates.depends_on_plugin,
                    ),
                ),
            },
    {
        let package = self.candidate.crate_name.as_str();
        if let Some(reason) = incompatible_reason(package, probe) {
            return Built::RollBack(reason);
        }
        let warnings = warnings_of(
            package,
            self.bin.as_str(),
            probe,
            shadowed,
            self.gates.depends_on_plugin,
        );
        let version = borrowed(&self.gates.version);
        let v: Vec<(String, Json)> = vec![
            ("installed".to_owned(), Json::Bool(true)),
            ("package".to_owned(), string(package)),
            ("version".to_owned(), string_or_null(version)),
            ("binary".to_owned(), string(self.bin.as_str())),
            ("path".to_owned(), string(self.path.as_str())),
        ];
        assert(pairs(v@) =~= seq![
            ("installed"@, JsonView::Bool(true)),
            ("package"@, JsonView::Text(package@)),
            ("version"@, text_or_null(self.gates.version.deep_view())),
            ("binary"@, JsonView::Text(self.bin@)),
            ("path"@, JsonView::Text(self.path@)),
        ]);
        let shown: &str = match version {
            Some(v) => v,
            None => "?",
        };
        let line = text::cat6("installed ", package, " ", shown, " as ", self.bin.as_str());
        Built::Done(emit_warned(format, object(v), line.as_str(), &warnings))
    }
}

/// How a run of cargo ended.
#[derive(Debug, PartialEq, Eq)]
pub enum CargoRun {
    /// It exited with success.
    Success,
    /// It exited with this code, or was killed.
    Failed(Option<i32>),
    /// There is no cargo.
    Missing,
    /// It could not be started.
    NotStarted(String),
}

/// Why a run of cargo counts as failed.
pub open spec fn cargo_problem(run: CargoRun, what: Seq<char>) -> Option<ErrorView> {
    match run {
        CargoRun::Success => None,
        CargoRun::Failed(code) => Some(cargo_failed(what, code)),
        CargoRun::Missing => Some(no_cargo()),
        CargoRun::NotStarted(e) => Some(registry_failure("could not run cargo: "@ + e@)),
    }
}

/// What a run of cargo means. `what` is the subcommand that ran.
pub fn cargo_outcome(run: &CargoRun, what: &str) -> (r: Result<(), CloveError>)
    ensures
        crate::error::verdict(r) == cargo_problem(*run, what@),
{
    match run {
        CargoRun::Success => Ok(()),
        CargoRun::Failed(code) => Err(cargo_failure(what, *code)),
        CargoRun::Missing => Err(cargo_missing()),
        CargoRun::NotStarted(e) => Err(
            registry_error(text::cat2("could not run cargo: ", e.as_str())),
        ),
    }
}

// ---- Installing from git ------------------------------------------------------

/// What the arguments of a git install ask for, or what is wrong with them: the address,
/// then the reference, then the package's name.
pub open spec fn git_request(
    url: Seq<char>,
    tag: Option<Seq<char>>,
    rev: Option<Seq<char>>,
    branch: Option<Seq<char>>,
    package: Option<Seq<char>>,
) -> Result<Option<GitRefView>, ErrorView> {
    match git_url_problem(url) {
        Some(e) => Err(e),
        None => match chosen_ref(tag, rev, branch) {
            Err(e) => Err(e),
            Ok(reference) => if package is Some && crate_name_problem(package->0) is Some {
                Err(crate_name_problem(package->0)->0)
            } else {
                Ok(reference)
            },
        },
    }
}

/// Checks the arguments of a git install before anything is fetched.
pub fn vet_git(args: &PluginInstallArgs, url: &str) -> (r: Result<Option<GitRef>, CloveError>)
    ensures
        crate::error::outcome(r) == git_request(
            url@,
            args.tag.deep_view(),
            args.rev.deep_view(),
            args.branch.deep_view(),
            args.package.deep_view(),
        ),
{
    match git_source::validate_git_url(url) {
        Ok(()) => {},
        Err(e) => return Err(e),
    }
    let reference = match git_source::choose_ref(&args.tag, &args.rev, &args.branch) {
        Ok(reference) => reference,
        Err(e) => return Err(e),
    };
    if let Some(p) = &args.package {
        match validate_crate_name(p.as_str()) {
            Ok(()) => {},
            Err(e) => return Err(e),
        }
    }
    Ok(reference)
}

/// A git install whose repository was inspected.
#[derive(Debug, PartialEq, Eq)]
pub struct Inspected {
    pub url: String,
    pub package: String,
    pub bin: String,
    /// The commit that was inspected, and that will be built.
    pub commit: String,
    /// The file that the binary will be.
    pub path: String,
    /// Did the user name a tag, a revision or a branch?
    pub pinned: bool,
}

/// The warnings of a git install.
pub open spec fn git_warnings(
    url: Seq<char>,
    pinned: bool,
    bin: Seq<char>,
    shadowed: Option<Seq<char>>,
) -> Seq<Seq<char>> {
    (if pinned {
        Seq::empty()
    } else {
        seq![git_source::unpinned(url)]
    }) + (match shadowed {
        Some(e) => seq!["`"@ + bin + "` now shadows the copy at "@ + e],
        None => Seq::empty(),
    })
}

impl Inspected {
    /// Chooses the plugin of an inspected repository. `commit` is the commit that was
    /// inspected, `reference` what the user named.
    pub fn of_repository(
        url: &str,
        found: &Vec<GitPlugin>,
        args: &PluginInstallArgs,
        reference: Option<&GitRef>,
        commit: &str,
        home: &str,
        exe_suffix: &str,
    ) -> (r: Result<Inspected, CloveError>)
        ensures
            match git_source::selected(found.deep_view(), args.package.deep_view()) {
                Ok(p) => {
                    &&& r is Ok
                    &&& r->Ok_0.url@ == url@
                    &&& r->Ok_0.package@ == p.package
                    &&& r->Ok_0.bin@ == p.bin
                    &&& r->Ok_0.commit@ == commit@
                    &&& r->Ok_0.pinned == (reference is Some)
                    &&& path::is_component(p.bin + exe_suffix@) ==> is_binary_path(
                        home@,
                        p.bin,
                        exe_suffix@,
                        r->Ok_0.path@,
                    )
                },
                Err(e) => r is Err && r->Err_0.deep_view() == e,
            },
    {
        let chosen = match git_source::select(found, borrowed(&args.package)) {
            Ok(p) => p,
            Err(e) => return Err(e),
        };
        Ok(
            Inspected {
                url: url.to_owned(),
                package: chosen.package.clone(),
                bin: chosen.bin.clone(),
                commit: commit.to_owned(),
                path: installed_binary_path_with(home, chosen.bin.as_str(), exe_suffix),
                pinned: reference.is_some(),
            },
        )
    }

    /// What comes next: a refusal to shadow, the question, or the build.
    pub fn next(
        &self,
        format: OutputFormat,
        args: &PluginInstallArgs,
        shadowed: Option<&str>,
        tty: Terminals,
    ) -> (r: Result<Step, CloveError>)
        ensures
            step_view(r) == cleared_step(
                args.force,
                args.yes,
                format,
                tty,
                "--git"@,
                self.bin@,
                text::opt_view(shadowed),
                crate::registry::install::git_prompt(
                    self.url@,
                    self.package@,
                    self.bin@,
                    self.commit@,
                    text::opt_view(shadowed),
                ),
            ),
    {
        if let Some(existing) = shadowed {
            if !args.force {
                return Err(invalid("--git", shadow_refusal(self.bin.as_str(), existing)));
            }
        }
        ask(
            args.yes,
            format,
            tty,
            crate::registry::install::git_prompt_text(
                self.url.as_str(),
                self.package.as_str(),
                self.bin.as_str(),
                self.commit.as_str(),
                shadowed,
            ),
        )
    }

    /// cargo's arguments: it builds exactly the commit that was inspected, for a tag or a
    /// branch is a name that can move.
    pub fn argv(&self, home: &str, force: bool) -> (r: Vec<String>)
        ensures
            r.deep_view() == git_source::git_install_args(
                self.url@,
                Some(GitRefView::Rev(self.commit@)),
                self.package@,
                self.bin@,
                home@,
                force,
            ),
    {
        let pinned = GitRef::Rev(self.commit.clone());
        git_source::cargo_install_argv(
            self.url.as_str(),
            Some(&pinned),
            self.package.as_str(),
            self.bin.as_str(),
            home,
            force,
        )
    }

    /// Judges the freshly built plugin by what it answered, and reports.
    pub fn built(&self, format: OutputFormat, shadowed: Option<&str>, probe: Option<&ProbedInfo>) -> (r:
        Built)
        ensures
            match r {
                Built::RollBack(reason) => unusable(self.package@, answer_view(probe)) == Some(
                    reason@,
                ),
                Built::Done(out) => unusable(self.package@, answer_view(probe)) is None
                    && out.deep_view() == warned_report(
                    format,
                    obj(
                        seq![
                            ("installed"@, JsonView::Bool(true)),
                            ("package"@, JsonView::Text(self.package@)),
                            ("binary"@, JsonView::Text(self.bin@)),
                            ("source"@, JsonView::Text(self.url@)),
                            ("commit"@, JsonView::Text(self.commit@)),
                            ("path"@, JsonView::Text(self.path@)),
                        ],
                    ),
                    "installed "@ + self.package@ + " from "@ + self.url@ + " as "@ + self.bin@,
                    git_warnings(self.url@, self.pinned, self.bin@, text::opt_view(shadowed)),
                ),
            },
    {
        if let Some(reason) = incompatible_reason(self.package.as_str(), probe) {
            return Built::RollBack(reason);
        }
        let mut warnings: Vec<String> = Vec::new();
        if !self.pinned {
            warnings.push(git_source::unpinned_warning(self.url.as_str()));
        }
        if let Some(e) = shadowed {
            warnings.push(text::cat4("`", self.bin.as_str(), "` now shadows the copy at ", e));
        }
        assert(warnings.deep_view() =~= git_warnings(
            self.url@,
            self.pinned,
            self.bin@,
            text::opt_view(shadowed),
        ));
        let v: Vec<(String, Json)> = vec![
            ("installed".to_owned(), Json::Bool(true)),
            ("package".to_owned(), string(self.package.as_str())),
            ("binary".to_owned(), string(self.bin.as_str())),
            ("source".to_owned(), string(self.url.as_str())),
            ("commit".to_owned(), string(self.commit.as_str())),
            ("path".to_owned(), string(self.path.as_str())),
        ];
        assert(pairs(v@) =~= seq![
            ("installed"@, JsonView::Bool(true)),
            ("package"@, JsonView::Text(self.package@)),
            ("binary"@, JsonView::Text(self.bin@)),
            ("source"@, JsonView::Text(self.url@)),
            ("commit"@, JsonView::Text(self.commit@)),
            ("path"@, JsonView::Text(self.path@)),
        ]);
        let line = text::cat6(
            "installed ",
            self.package.as_str(),
            " from ",
            self.url.as_str(),
            " as ",
            self.bin.as_str(),
        );
        Built::Done(emit_warned(format, object(v), line.as_str(), &warnings))
    }
}

/// cargo is pinned to the inspected commit, whatever reference the user named.
pub proof fn law_git_builds_what_was_inspected(
    url: Seq<char>,
    commit: Seq<char>,
    package: Seq<char>,
    bin: Seq<char>,
    home: Seq<char>,
    force: bool,
)
    ensures
        ({
            let argv = git_source::git_install_args(
                url,
                Some(GitRefView::Rev(commit)),
                package,
                bin,
                home,
                force,
            );
            argv[2] == "--git"@ && argv[3] == url && argv[4] == "--rev"@ && argv[5] == commit
        }),
{
}

// ---- What clove installed -----------------------------------------------------

/// Does one of the packages have this name?
pub open spec fn has_package(all: Seq<InstalledView>, package: Seq<char>) -> bool {
    exists|i: int| 0 <= i < all.len() && (#[trigger] all[i]).package == package
}

/// Is a package what a crate name means: by a binary of that name, or by its own?
pub open spec fn is_meant(i: InstalledView, crate_name: Seq<char>, exe_suffix: Seq<char>) -> bool {
    match text::behind(crate_name, "clove-"@) {
        Some(sub) => i.provides(sub, exe_suffix) || i.package == crate_name,
        None => false,
    }
}

/// The packages that a crate name means, put behind those found before, each package
/// once.
pub open spec fn gathered(
    acc: Seq<InstalledView>,
    all: Seq<InstalledView>,
    crate_name: Seq<char>,
    exe_suffix: Seq<char>,
) -> Seq<InstalledView>
    decreases all.len(),
{
    if all.len() == 0 {
        acc
    } else {
        let before = gathered(acc, all.drop_last(), crate_name, exe_suffix);
        let i = all.last();
        if is_meant(i, crate_name, exe_suffix) && !has_package(before, i.package) {
            before.push(i)
        } else {
            before
        }
    }
}

/// The packages that any of the crate names mean.
pub open spec fn meant_by(
    names: Seq<Seq<char>>,
    all: Seq<InstalledView>,
    exe_suffix: Seq<char>,
) -> Seq<InstalledView>
    decreases names.len(),
{
    if names.len() == 0 {
        Seq::empty()
    } else {
        gathered(
            meant_by(names.drop_last(), all, exe_suffix),
            all,
            names.last(),
            exe_suffix,
        )
    }
}

/// A name without one `clove-` in front.
pub open spec fn bare_name(name: Seq<char>) -> Seq<char> {
    match text::behind(name, "clove-"@) {
        Some(rest) => rest,
        None => name,
    }
}

fn bare_of(name: &str) -> (r: &str)
    ensures
        r@ == bare_name(name@),
{
    match text::strip_prefix(name, "clove-") {
        Some(rest) => rest,
        None => name,
    }
}

/// The names of the packages.
pub open spec fn packages_of(all: Seq<InstalledView>) -> Seq<Seq<char>> {
    Seq::new(all.len(), |i: int| all[i].package)
}

/// The package that a name stands for. A binary that dispatches as the name wins; else
/// the names that an install of it would have tried decide, and several are refused.
pub open spec fn installed_named(
    all: Seq<InstalledView>,
    name: Seq<char>,
    exe_suffix: Seq<char>,
) -> Result<Option<InstalledView>, ErrorView> {
    let bare = bare_name(name);
    match owner(all, bare, exe_suffix) {
        Some(i) => Ok(Some(i)),
        None => {
            let found = meant_by(candidates(bare), all, exe_suffix);
            if found.len() == 0 {
                Ok(None)
            } else if found.len() == 1 {
                Ok(Some(found[0]))
            } else {
                Err(
                    invalid_field(
                        "name"@,
                        "`"@ + bare + "` is ambiguous — "@ + text::joined(
                            packages_of(found),
                            ", "@,
                        ) + " are all installed. Name one exactly."@,
                    ),
                )
            }
        },
    }
}

fn package_taken(all: &Vec<Installed>, package: &str) -> (r: bool)
    ensures
        r == has_package(all.deep_view(), package@),
{
    let ghost given = all.deep_view();
    let mut i: usize = 0;
    while i < all.len()
        invariant
            i <= all.len(),
            given == all.deep_view(),
            forall|j: int| 0 <= j < i ==> (#[trigger] given[j]).package != package@,
        decreases all.len() - i,
    {
        assert(given[i as int] == all@[i as int].deep_view());
        if text::same(all[i].package.as_str(), package) {
            assert(given[i as int].package == package@);
            return true;
        }
        i += 1;
    }
    false
}

fn gather(
    acc: &mut Vec<Installed>,
    all: &Vec<Installed>,
    crate_name: &str,
    exe_suffix: &str,
)
    ensures
        final(acc).deep_view() == gathered(
            old(acc).deep_view(),
            all.deep_view(),
            crate_name@,
            exe_suffix@,
        ),
{
    let ghost start = acc.deep_view();
    let ghost given = all.deep_view();
    let mut i: usize = 0;
    assert(gathered(start, given.take(0), crate_name@, exe_suffix@) == start);
    while i < all.len()
        invariant
            i <= all.len(),
            given == all.deep_view(),
            acc.deep_view() == gathered(start, given.take(i as int), crate_name@, exe_suffix@),
        decreases all.len() - i,
    {
        let ghost prev = acc.deep_view();
        assert(given.take(i + 1).drop_last() =~= given.take(i as int));
        assert(given[i as int] == all@[i as int].deep_view());
        let meant = match text::strip_prefix(crate_name, "clove-") {
            Some(sub) => all[i].provides_subcommand(sub, exe_suffix) || text::same(
                all[i].package.as_str(),
                crate_name,
            ),
            None => false,
        };
        if meant && !package_taken(acc, all[i].package.as_str()) {
            acc.push(all[i].clone());
            assert(acc.deep_view() =~= prev.push(given[i as int]));
        }
        i += 1;
    }
    assert(given.take(i as int) =~= given);
}

fn package_names(all: &Vec<Installed>) -> (r: Vec<String>)
    ensures
        r.deep_view() == packages_of(all.deep_view()),
{
    let ghost given = all.deep_view();
    let mut out: Vec<String> = Vec::new();
    let mut i: usize = 0;
    while i < all.len()
        invariant
            i <= all.len(),
            given == all.deep_view(),
            out.len() == i,
            forall|j: int| 0 <= j < i ==> (#[trigger] out@[j])@ == given[j].package,
        decreases all.len() - i,
    {
        assert(given[i as int] == all@[i as int].deep_view());
        out.push(all[i].package.clone());
        i += 1;
    }
    assert(out.deep_view() =~= packages_of(given));
    out
}

/// The clove-installed plugin that a user-typed name refers to. The name that installed a
/// plugin also removes and updates it, so the same ladder of names applies; an exact
/// subcommand wins outright, and an ambiguous name is refused rather than guessed at.
pub fn find_installed(installed: &Vec<Installed>, name: &str, exe_suffix: &str) -> (r: Result<
    Option<Installed>,
    CloveError,
>)
    ensures
        crate::error::outcome(r) == installed_named(installed.deep_view(), name@, exe_suffix@),
{
    let bare = bare_of(name);
    if let Some(found) = find_by_subcommand(installed, bare, exe_suffix) {
        return Ok(Some(found.clone()));
    }
    let names = candidate_crate_names(bare);
    let ghost all = installed.deep_view();
    let ghost ladder = names.deep_view();
    let mut found: Vec<Installed> = Vec::new();
    let mut i: usize = 0;
    assert(found.deep_view() =~= meant_by(ladder.take(0), all, exe_suffix@));
    while i < names.len()
        invariant
            i <= names.len(),
            all == installed.deep_view(),
            ladder == names.deep_view(),
            found.deep_view() == meant_by(ladder.take(i as int), all, exe_suffix@),
        decreases names.len() - i,
    {
        assert(ladder.take(i + 1).drop_last() =~= ladder.take(i as int));
        gather(&mut found, installed, names[i].as_str(), exe_suffix);
        i += 1;
    }
    assert(ladder.take(i as int) =~= ladder);
    assert(found.deep_view().len() == found.len());
    if found.len() == 0 {
        Ok(None)
    } else if found.len() == 1 {
        assert(found.deep_view()[0] == found@[0].deep_view());
        Ok(Some(found.remove(0)))
    } else {
        let packages = package_names(&found);
        let list = text::join(&packages, ", ");
        Err(
            invalid(
                "name",
                text::cat5(
                    "`",
                    bare,
                    "` is ambiguous — ",
                    list.as_str(),
                    " are all installed. Name one exactly.",
                ),
            ),
        )
    }
}

proof fn lemma_gathered_keeps_distinct(
    acc: Seq<InstalledView>,
    all: Seq<InstalledView>,
    crate_name: Seq<char>,
    exe_suffix: Seq<char>,
)
    requires
        forall|i: int, j: int|
            0 <= i < j < acc.len() ==> (#[trigger] acc[i]).package != (#[trigger] acc[j]).package,
    ensures
        ({
            let r = gathered(acc, all, crate_name, exe_suffix);
            forall|i: int, j: int|
                0 <= i < j < r.len() ==> (#[trigger] r[i]).package != (#[trigger] r[j]).package
        }),
    decreases all.len(),
{
    if all.len() > 0 {
        lemma_gathered_keeps_distinct(acc, all.drop_last(), crate_name, exe_suffix);
    }
}

/// No package is reported as ambiguous with itself: the packages that a name means are
/// all different, however many binaries each has.
pub proof fn law_a_package_is_meant_once(
    names: Seq<Seq<char>>,
    all: Seq<InstalledView>,
    exe_suffix: Seq<char>,
)
    ensures
        forall|i: int, j: int|
            0 <= i < j < meant_by(names, all, exe_suffix).len() ==> (#[trigger] meant_by(
                names,
                all,
                exe_suffix,
            )[i]).package != (#[trigger] meant_by(names, all, exe_suffix)[j]).package,
    decreases names.len(),
{
    if names.len() > 0 {
        law_a_package_is_meant_once(names.drop_last(), all, exe_suffix);
        lemma_gathered_keeps_distinct(
            meant_by(names.drop_last(), all, exe_suffix),
            all,
            names.last(),
            exe_suffix,
        );
    }
}

// ---- Uninstalling -------------------------------------------------------------

/// The package that an uninstall removes, or why it removes none. `resolved` is the file
/// that the name resolves to on the search path.
pub open spec fn uninstall_of(
    all: Seq<InstalledView>,
    name: Seq<char>,
    resolved: Option<Seq<char>>,
    home: Seq<char>,
    exe_suffix: Seq<char>,
) -> Result<InstalledView, ErrorView> {
    match installed_named(all, name, exe_suffix) {
        Err(e) => Err(e),
        Ok(Some(i)) => Ok(i),
        Ok(None) => Err(
            invalid_field(
                "name"@,
                match resolved {
                    Some(path) => foreign_install(bare_name(name), path, home),
                    None => "no plugin `"@ + bare_name(name) + "` was installed by clove"@,
                },
            ),
        ),
    }
}

/// Finds what `clove plugin uninstall <name>` removes. A plugin that clove did not install
/// is told apart from no plugin at all.
pub fn uninstall_target(
    installed: &Vec<Installed>,
    name: &str,
    resolved: Option<&str>,
    home: &str,
    exe_suffix: &str,
) -> (r: Result<Installed, CloveError>)
    ensures
        crate::error::outcome(r) == uninstall_of(
            installed.deep_view(),
            name@,
            text::opt_view(resolved),
            home@,
            exe_suffix@,
        ),
{
    match find_installed(installed, name, exe_suffix) {
        Err(e) => Err(e),
        Ok(Some(i)) => Ok(i),
        Ok(None) => {
            let bare = bare_of(name);
            Err(
                invalid(
                    "name",
                    match resolved {
                        Some(path) => foreign_install_message(bare, path, home),
                        None => text::cat3("no plugin `", bare, "` was installed by clove"),
                    },
                ),
            )
        },
    }
}

/// The files of a package's binaries.
pub fn binary_paths(installed: &Installed, home: &str, exe_suffix: &str) -> (r: Vec<String>)
    ensures
        r.len() == installed.bins.len(),
        forall|i: int|
            0 <= i < r.len() && path::is_component(installed.bins@[i]@ + exe_suffix@)
                ==> is_binary_path(home@, installed.bins@[i]@, exe_suffix@, #[trigger] r@[i]@),
{
    let mut out: Vec<String> = Vec::new();
    let mut i: usize = 0;
    while i < installed.bins.len()
        invariant
            i <= installed.bins.len(),
            out.len() == i,
            forall|j: int|
                0 <= j < i && path::is_component(installed.bins@[j]@ + exe_suffix@)
                    ==> is_binary_path(home@, installed.bins@[j]@, exe_suffix@, #[trigger] out@[j]@),
        decreases installed.bins.len() - i,
    {
        out.push(installed_binary_path_with(home, installed.bins[i].as_str(), exe_suffix));
        i += 1;
    }
    out
}

/// What an uninstall that cargo reported as done comes to. `left_behind` are the package's
/// files that are still there: then it did not work, whatever cargo said.
pub open spec fn uninstalled(
    format: OutputFormat,
    i: InstalledView,
    left_behind: Seq<Seq<char>>,
) -> Result<Seq<OutView>, ErrorView> {
    if left_behind.len() > 0 {
        Err(
            registry_failure(
                "cargo reported success but "@ + (if left_behind.len() == 1 {
                    "this binary is"@
                } else {
                    "these binaries are"@
                }) + " still present after uninstalling `"@ + i.package + "`: "@ + text::joined(
                    left_behind,
                    ", "@,
                ) + ". It is still on the plugin search path — remove it manually."@,
            ),
        )
    } else {
        Ok(
            report(
                format,
                obj(
                    seq![
                        ("uninstalled"@, JsonView::Bool(true)),
                        ("package"@, JsonView::Text(i.package)),
                        ("version"@, JsonView::Text(i.version)),
                    ],
                ),
                "uninstalled "@ + i.package + " "@ + i.version,
                Seq::empty(),
            ),
        )
    }
}

/// The view of lines, or of the error in their place.
pub open spec fn lines_view(r: Result<Vec<Out>, CloveError>) -> Result<Seq<OutView>, ErrorView> {
    match r {
        Ok(out) => Ok(out.deep_view()),
        Err(e) => Err(e.deep_view()),
    }
}

/// Reports an uninstall that cargo says it has done.
pub fn after_uninstall(format: OutputFormat, installed: &Installed, left_behind: &Vec<String>) -> (r:
    Result<Vec<Out>, CloveError>)
    ensures
        lines_view(r) == uninstalled(format, installed.deep_view(), left_behind.deep_view()),
{
    assert(left_behind.deep_view().len() == left_behind.len());
    if left_behind.len() > 0 {
        let list = text::join(left_behind, ", ");
        let some = if left_behind.len() == 1 {
            "this binary is"
        } else {
            "these binaries are"
        };
        return Err(
            registry_error(
                text::cat7(
                    "cargo reported success but ",
                    some,
                    " still present after uninstalling `",
                    installed.package.as_str(),
                    "`: ",
                    list.as_str(),
                    ". It is still on the plugin search path — remove it manually.",
                ),
            ),
        );
    }
    let v: Vec<(String, Json)> = vec![
        ("uninstalled".to_owned(), Json::Bool(true)),
        ("package".to_owned(), string(installed.package.as_str())),
        ("version".to_owned(), string(installed.version.as_str())),
    ];
    assert(pairs(v@) =~= seq![
        ("uninstalled"@, JsonView::Bool(true)),
        ("package"@, JsonView::Text(installed.package@)),
        ("version"@, JsonView::Text(installed.version@)),
    ]);
    let line = text::cat4(
        "uninstalled ",
        installed.package.as_str(),
        " ",
        installed.version.as_str(),
    );
    Ok(emit(format, object(v), line.as_str()))
}

// ---- Updating -----------------------------------------------------------------

/// The word for what an update looks at.
pub open spec fn scope_word(all: bool, named: bool) -> Seq<char> {
    if all || !named {
        "all"@
    } else {
        "one"@
    }
}

/// What an update looks at, for the result to say.
pub fn update_scope(args: &PluginUpdateArgs) -> (r: &'static str)
    ensures
        r@ == scope_word(args.all, args.name is Some),
{
    if args.all || args.name.is_none() {
        "all"
    } else {
        "one"
    }
}

/// The packages that an update looks at.
pub open spec fn update_of(
    name: Option<Seq<char>>,
    all: Seq<InstalledView>,
    exe_suffix: Seq<char>,
) -> Result<Seq<InstalledView>, ErrorView> {
    match name {
        Some(name) => match installed_named(all, name, exe_suffix) {
            Err(e) => Err(e),
            Ok(Some(i)) => Ok(seq![i]),
            Ok(None) => Err(
                invalid_field(
                    "name"@,
                    "no plugin `"@ + bare_name(name) + "` was installed by clove"@,
                ),
            ),
        },
        None => Ok(all),
    }
}

/// The packages that an update looks at: the one that is named, or every one.
pub fn update_targets(args: &PluginUpdateArgs, all: Vec<Installed>, exe_suffix: &str) -> (r: Result<
    Vec<Installed>,
    CloveError,
>)
    ensures
        crate::error::outcome(r) == update_of(args.name.deep_view(), all.deep_view(), exe_suffix@),
{
    match &args.name {
        Some(name) => match find_installed(&all, name.as_str(), exe_suffix) {
            Err(e) => Err(e),
            Ok(Some(i)) => {
                let one: Vec<Installed> = vec![i];
                assert(one.deep_view() =~= seq![i.deep_view()]);
                Ok(one)
            },
            Ok(None) => Err(
                invalid(
                    "name",
                    text::cat3(
                        "no plugin `",
                        bare_of(name.as_str()),
                        "` was installed by clove",
                    ),
                ),
            ),
        },
        None => Ok(all),
    }
}

/// The model of what looking up a package came to.
pub open spec fn look_up_view(r: Result<Option<RegistryPlugin>, CloveError>) -> Result<
    Option<PluginView>,
    ErrorView,
> {
    match r {
        Ok(p) => Ok(p.deep_view()),
        Err(e) => Err(e.deep_view()),
    }
}

/// Can looking up an installed package come to this? Only what came from the registry is
/// asked of it.
pub open spec fn may_look_up<F: Fetch + ?Sized>(
    client: &CratesIo<F>,
    installed: InstalledView,
    end: Result<Option<PluginView>, ErrorView>,
) -> bool {
    if !(installed.source is Registry) {
        end == Ok::<Option<PluginView>, ErrorView>(None)
    } else {
        match crate_name_problem(installed.package) {
            Some(e) => end == Err::<Option<PluginView>, ErrorView>(e),
            None => exists|answer: Result<Option<PluginView>, FetchErrorView>|
                #[trigger]
                client.may_find(installed.package, answer) && end == (match answer {
                    Ok(p) => Ok::<Option<PluginView>, ErrorView>(p),
                    Err(e) => Err(unreachable_registry(e)),
                }),
        }
    }
}

/// The published crate of an installed package, where the package came from the registry.
/// A transport failure is an error: to take it for "nothing newer" would print that
/// everything is up to date while offline.
pub fn look_up<F: Fetch + ?Sized>(client: &CratesIo<F>, installed: &Installed) -> (r: Result<
    Option<RegistryPlugin>,
    CloveError,
>)
    ensures
        may_look_up(client, installed.deep_view(), look_up_view(r)),
{
    if !crate::registry::install::updatable_from_registry(installed) {
        return Ok(None);
    }
    match validate_crate_name(installed.package.as_str()) {
        Ok(()) => {},
        Err(e) => return Err(e),
    }
    let answer = client.crate_exists(installed.package.as_str());
    let ghost given = probe_view(answer);
    assert(client.may_find(installed.package@, given));
    match answer {
        Ok(latest) => Ok(latest),
        Err(e) => Err(e.into_error()),
    }
}

/// How many of the packages came from the registry.
pub open spec fn from_registry(all: Seq<InstalledView>) -> int
    decreases all.len(),
{
    if all.len() == 0 {
        0
    } else {
        from_registry(all.drop_last()) + (if all.last().source is Registry {
            1int
        } else {
            0
        })
    }
}

/// How many of the packages the registry is asked about, and how many are left alone.
pub fn count_targets(all: &Vec<Installed>) -> (r: (usize, usize))
    ensures
        r.0 == from_registry(all.deep_view()),
        r.0 + r.1 == all.len(),
{
    let ghost given = all.deep_view();
    let mut n: usize = 0;
    let mut i: usize = 0;
    assert(from_registry(given.take(0)) == 0);
    while i < all.len()
        invariant
            i <= all.len(),
            given == all.deep_view(),
            n <= i,
            n == from_registry(given.take(i as int)),
        decreases all.len() - i,
    {
        assert(given.take(i + 1).drop_last() =~= given.take(i as int));
        assert(given[i as int] == all@[i as int].deep_view());
        if crate::registry::install::updatable_from_registry(&all[i]) {
            n += 1;
        }
        i += 1;
    }
    assert(given.take(i as int) =~= given);
    (n, all.len() - n)
}

/// An installed package with what the registry has of it.
#[derive(Debug, PartialEq, Eq)]
pub struct Checked {
    pub installed: Installed,
    pub latest: Option<RegistryPlugin>,
}

/// The model of a [`Checked`].
pub struct CheckedView {
    pub installed: InstalledView,
    pub latest: Option<PluginView>,
}

impl DeepView for Checked {
    type V = CheckedView;

    open spec fn deep_view(&self) -> CheckedView {
        CheckedView { installed: self.installed.deep_view(), latest: self.latest.deep_view() }
    }
}

/// The packages that were looked up, in their order.
pub open spec fn packages(all: Seq<CheckedView>) -> Seq<InstalledView> {
    Seq::new(all.len(), |i: int| all[i].installed)
}

/// Can looking up the first of these packages come to this?
pub open spec fn may_check<F: Fetch + ?Sized>(
    client: &CratesIo<F>,
    targets: Seq<InstalledView>,
    all: Seq<CheckedView>,
) -> bool {
    &&& all.len() <= targets.len()
    &&& packages(all) == targets.take(all.len() as int)
    &&& forall|i: int|
        0 <= i < all.len() ==> may_look_up(client, targets[i], Ok((#[trigger] all[i]).latest))
}

/// Looks up every package. The first that cannot be looked up ends it: an update that
/// could not ask must not say that all is up to date.
pub fn check_targets<F: Fetch + ?Sized>(client: &CratesIo<F>, targets: Vec<Installed>) -> (r:
    Result<Vec<Checked>, CloveError>)
    ensures
        match r {
            Ok(all) => all.len() == targets.len() && may_check(
                client,
                targets.deep_view(),
                all.deep_view(),
            ),
            Err(e) => exists|all: Seq<CheckedView>| #[trigger]
                may_check(client, targets.deep_view(), all) && all.len() < targets.len()
                    && may_look_up(
                    client,
                    targets.deep_view()[all.len() as int],
                    Err(e.deep_view()),
                ),
        },
{
    let ghost given = targets.deep_view();
    let mut all: Vec<Checked> = Vec::new();
    let mut i: usize = 0;
    assert(packages(all.deep_view()) =~= given.take(0));
    while i < targets.len()
        invariant
            i <= targets.len(),
            given == targets.deep_view(),
            all.len() == i,
            may_check(client, given, all.deep_view()),
        decreases targets.len() - i,
    {
        let ghost before = all.deep_view();
        assert(given[i as int] == targets@[i as int].deep_view());
        let latest = match look_up(client, &targets[i]) {
            Ok(latest) => latest,
            Err(e) => {
                assert(may_look_up(client, given[before.len() as int], Err(e.deep_view())));
                return Err(e);
            },
        };
        let one = Checked { installed: targets[i].clone(), latest };
        let ghost view = one.deep_view();
        all.push(one);
        proof {
            assert(all.deep_view() =~= before.push(view));
            assert(packages(all.deep_view()) =~= given.take(i + 1)) by {
                assert(packages(before) == given.take(i as int));
                assert forall|j: int| 0 <= j < i implies all.deep_view()[j].installed
                    == given[j] by {
                    assert(packages(before)[j] == given.take(i as int)[j]);
                }
            }
            assert forall|j: int| 0 <= j < i + 1 implies may_look_up(
                client,
                given[j],
                Ok((#[trigger] all.deep_view()[j]).latest),
            ) by {
                if j < i {
                    assert(all.deep_view()[j] == before[j]);
                }
            }
        }
        i += 1;
    }
    Ok(all)
}

/// A package that will be updated.
#[derive(Debug, PartialEq, Eq)]
pub struct Upgrade {
    pub package: String,
    pub from: String,
    pub to: String,
    pub bin: String,
}

/// The model of an [`Upgrade`].
pub struct UpgradeView {
    pub package: Seq<char>,
    pub from: Seq<char>,
    pub to: Seq<char>,
    pub bin: Seq<char>,
}

impl DeepView for Upgrade {
    type V = UpgradeView;

    open spec fn deep_view(&self) -> UpgradeView {
        UpgradeView { package: self.package@, from: self.from@, to: self.to@, bin: self.bin@ }
    }
}

/// What becomes of a package.
pub enum Fate {
    /// It stays as it is.
    Hold,
    /// There is a newer version, but it is not installed; this line says why.
    Blocked(Seq<char>),
    /// It is updated.
    Upgrade(UpgradeView),
}

/// What becomes of a package. An update installs newer third-party code, so every gate of
/// an install applies to it again, and a yanked version is not offered.
pub open spec fn fate(
    c: CheckedView,
    dependents: Option<Seq<Seq<char>>>,
    strict: bool,
    allow_yanked: bool,
) -> Fate {
    match (verdict_of(c.installed, c.latest), c.latest) {
        (VerdictView::Newer(to), Some(candidate)) => {
            let g = gates_of(candidate, dependents);
            if g.blocked(strict) is Some {
                Fate::Blocked(
                    "  "@ + c.installed.package + " is not updated: "@ + g.blocked(strict)->0,
                )
            } else if g.yanked && !allow_yanked {
                Fate::Blocked(
                    "  "@ + c.installed.package + " is not updated: version "@ + to
                        + " is yanked"@,
                )
            } else {
                match g.dispatchable_bin {
                    Some(bin) => Fate::Upgrade(
                        UpgradeView {
                            package: c.installed.package,
                            from: c.installed.version,
                            to,
                            bin,
                        },
                    ),
                    None => Fate::Hold,
                }
            }
        },
        _ => Fate::Hold,
    }
}

/// The packages that are updated.
pub open spec fn upgrades_of(
    all: Seq<CheckedView>,
    dependents: Option<Seq<Seq<char>>>,
    strict: bool,
    allow_yanked: bool,
) -> Seq<UpgradeView>
    decreases all.len(),
{
    if all.len() == 0 {
        Seq::empty()
    } else {
        let rest = upgrades_of(all.drop_last(), dependents, strict, allow_yanked);
        match fate(all.last(), dependents, strict, allow_yanked) {
            Fate::Upgrade(u) => rest.push(u),
            _ => rest,
        }
    }
}

/// The lines on the packages that are held back.
pub open spec fn blocked_of(
    all: Seq<CheckedView>,
    dependents: Option<Seq<Seq<char>>>,
    strict: bool,
    allow_yanked: bool,
) -> Seq<Seq<char>>
    decreases all.len(),
{
    if all.len() == 0 {
        Seq::empty()
    } else {
        let rest = blocked_of(all.drop_last(), dependents, strict, allow_yanked);
        match fate(all.last(), dependents, strict, allow_yanked) {
            Fate::Blocked(line) => rest.push(line),
            _ => rest,
        }
    }
}

/// The lines of the plan, one for each package.
pub open spec fn plan_notes(all: Seq<CheckedView>) -> Seq<OutView> {
    Seq::new(
        all.len(),
        |i: int|
            OutView::Note(update_text(all[i].installed, verdict_of(all[i].installed, all[i].latest))),
    )
}

/// The plan of an update.
#[derive(Debug, PartialEq, Eq)]
pub struct Plan {
    /// What is updated.
    pub upgrades: Vec<Upgrade>,
    /// Why something newer is not.
    pub blocked: Vec<String>,
    /// One line for each package.
    pub lines: Vec<Out>,
}

/// Plans an update. `dependents` are the crates that depend on `clove-plugin`, fetched
/// live.
pub fn plan_update(
    args: &PluginUpdateArgs,
    all: &Vec<Checked>,
    dependents: Option<&Vec<String>>,
) -> (r: Plan)
    ensures
        r.upgrades.deep_view() == upgrades_of(
            all.deep_view(),
            names_view(dependents),
            args.strict,
            args.allow_yanked,
        ),
        r.blocked.deep_view() == blocked_of(
            all.deep_view(),
            names_view(dependents),
            args.strict,
            args.allow_yanked,
        ),
        r.lines.deep_view() == plan_notes(all.deep_view()),
{
    let ghost given = all.deep_view();
    let ghost deps = names_view(dependents);
    let mut upgrades: Vec<Upgrade> = Vec::new();
    let mut blocked: Vec<String> = Vec::new();
    let mut lines: Vec<Out> = Vec::new();
    let mut i: usize = 0;
    assert(upgrades.deep_view() =~= upgrades_of(
        given.take(0),
        deps,
        args.strict,
        args.allow_yanked,
    ));
    assert(blocked.deep_view() =~= blocked_of(given.take(0), deps, args.strict, args.allow_yanked));
    while i < all.len()
        invariant
            i <= all.len(),
            given == all.deep_view(),
            deps == names_view(dependents),
            upgrades.deep_view() == upgrades_of(
                given.take(i as int),
                deps,
                args.strict,
                args.allow_yanked,
            ),
            blocked.deep_view() == blocked_of(
                given.take(i as int),
                deps,
                args.strict,
                args.allow_yanked,
            ),
            lines.len() == i,
            forall|j: int|
                0 <= j < i ==> (#[trigger] lines@[j]).deep_view() == plan_notes(given)[j],
        decreases all.len() - i,
    {
        let ghost ups = upgrades.deep_view();
        let ghost downs = blocked.deep_view();
        let c = &all[i];
        assert(given.take(i + 1).drop_last() =~= given.take(i as int));
        assert(given[i as int] == c.deep_view());
        let verdict = update_verdict(&c.installed, c.latest.as_ref());
        lines.push(Out::Note(update_line(&c.installed, &verdict)));
        if let UpdateVerdict::Newer(to) = verdict {
            if let Some(candidate) = &c.latest {
                let gates = evaluate(candidate, dependents);
                if let Some(reason) = gates.blocking_reason(args.strict) {
                    blocked.push(
                        text::cat4(
                            "  ",
                            c.installed.package.as_str(),
                            " is not updated: ",
                            reason.as_str(),
                        ),
                    );
                    assert(blocked.deep_view() =~= downs.push(
                        blocked@[blocked@.len() - 1]@,
                    ));
                } else if gates.yanked && !args.allow_yanked {
                    blocked.push(
                        text::cat5(
                            "  ",
                            c.installed.package.as_str(),
                            " is not updated: version ",
                            to.as_str(),
                            " is yanked",
                        ),
                    );
                    assert(blocked.deep_view() =~= downs.push(
                        blocked@[blocked@.len() - 1]@,
                    ));
                } else if let Some(bin) = &gates.dispatchable_bin {
                    upgrades.push(
                        Upgrade {
                            package: c.installed.package.clone(),
                            from: c.installed.version.clone(),
                            to,
                            bin: bin.clone(),
                        },
                    );
                    assert(upgrades.deep_view() =~= ups.push(
                        upgrades@[upgrades@.len() - 1].deep_view(),
                    ));
                }
            }
        }
        i += 1;
    }
    assert(given.take(i as int) =~= given);
    assert(lines.deep_view() =~= plan_notes(given));
    Plan { upgrades, blocked, lines }
}

/// An update only ever moves a registry install forward, to a binary of the package's own
/// that passes the gates of an install.
pub proof fn law_updates_pass_the_gates(
    c: CheckedView,
    dependents: Option<Seq<Seq<char>>>,
    strict: bool,
    allow_yanked: bool,
)
    ensures
        fate(c, dependents, strict, allow_yanked) matches Fate::Upgrade(u) ==> {
            &&& c.latest is Some
            &&& verdict_of(c.installed, c.latest) == VerdictView::Newer(u.to)
            &&& gates_of(c.latest->0, dependents).blocked(strict) is None
            &&& c.latest->0.is_yanked() ==> allow_yanked
            &&& u.bin == c.latest->0.crate_name
            &&& c.latest->0.bin_names.contains(u.bin)
            &&& dependents matches Some(names) ==> names.contains(u.bin)
            &&& u.package == c.installed.package && u.from == c.installed.version
        },
{
    if let Fate::Upgrade(u) = fate(c, dependents, strict, allow_yanked) {
        law_passing_the_gates(c.latest->0, dependents, strict);
    }
}

/// The lines trimmed, as warnings.
pub open spec fn trimmed_all(lines: Seq<Seq<char>>) -> Seq<Seq<char>> {
    Seq::new(lines.len(), |i: int| text::trimmed(lines[i]))
}

/// The lines on stderr.
pub open spec fn plain_notes(lines: Seq<Seq<char>>) -> Seq<OutView> {
    Seq::new(lines.len(), |i: int| OutView::Note(lines[i]))
}

impl Plan {
    /// What held packages are reported as. This is not for people alone: a crate that
    /// stopped being a plugin, or a yanked release, is what these gates are there for.
    pub fn warnings(&self) -> (r: Vec<String>)
        ensures
            r.deep_view() == trimmed_all(self.blocked.deep_view()),
    {
        let ghost all = self.blocked.deep_view();
        let mut out: Vec<String> = Vec::new();
        let mut i: usize = 0;
        while i < self.blocked.len()
            invariant
                i <= self.blocked.len(),
                all == self.blocked.deep_view(),
                out.len() == i,
                forall|j: int| 0 <= j < i ==> (#[trigger] out@[j])@ == text::trimmed(all[j]),
            decreases self.blocked.len() - i,
        {
            assert(all[i as int] == self.blocked@[i as int]@);
            out.push(text::trim(self.blocked[i].as_str()).to_owned());
            i += 1;
        }
        assert(out.deep_view() =~= trimmed_all(all));
        out
    }

    /// The plan on stderr, where the question is asked too: the packages for people, and
    /// what is held back in any format.
    pub fn shown(self, format: OutputFormat) -> (r: Vec<Out>)
        ensures
            r.deep_view() == (if format == OutputFormat::Human {
                self.lines.deep_view()
            } else {
                Seq::empty()
            }) + plain_notes(self.blocked.deep_view()),
    {
        let ghost all = self.blocked.deep_view();
        let mut out: Vec<Out> = if format == OutputFormat::Human {
            self.lines
        } else {
            Vec::new()
        };
        assert(format != OutputFormat::Human ==> out.deep_view() =~= Seq::<OutView>::empty());
        let mut notes: Vec<Out> = Vec::new();
        let mut i: usize = 0;
        while i < self.blocked.len()
            invariant
                i <= self.blocked.len(),
                all == self.blocked.deep_view(),
                notes.len() == i,
                forall|j: int|
                    0 <= j < i ==> (#[trigger] notes@[j]).deep_view() == OutView::Note(all[j]),
            decreases self.blocked.len() - i,
        {
            assert(all[i as int] == self.blocked@[i as int]@);
            notes.push(Out::Note(self.blocked[i].clone()));
            i += 1;
        }
        assert(notes.deep_view() =~= plain_notes(all));
        push_lines(&mut out, notes);
        out
    }
}

/// The object that an update results in: what was updated, how many packages the registry
/// was asked about, and how many it was not, for they did not come from there.
pub open spec fn update_data(
    updated: Seq<JsonView>,
    checked: int,
    skipped: int,
    scope: Seq<char>,
) -> JsonView {
    obj(
        seq![
            ("updated"@, JsonView::Array(updated)),
            ("checked"@, num(checked)),
            ("skipped"@, num(skipped)),
            ("scope"@, JsonView::Text(scope)),
        ],
    )
}

fn update_json(updated: Vec<Json>, checked: usize, skipped: usize, scope: &str) -> (r: Json)
    ensures
        r.shape() == update_data(updated.deep_view(), checked as int, skipped as int, scope@),
{
    proof {
        crate::json::lemma_array_shape(updated);
    }
    let v: Vec<(String, Json)> = vec![
        ("updated".to_owned(), Json::Array(updated)),
        ("checked".to_owned(), number(checked as u64)),
        ("skipped".to_owned(), number(skipped as u64)),
        ("scope".to_owned(), string(scope)),
    ];
    assert(pairs(v@) =~= seq![
        ("updated"@, JsonView::Array(updated.deep_view())),
        ("checked"@, num(checked as int)),
        ("skipped"@, num(skipped as int)),
        ("scope"@, JsonView::Text(scope@)),
    ]);
    object(v)
}

/// What is printed when clove has installed nothing to update.
pub fn emit_nothing_installed(format: OutputFormat, scope: &str) -> (r: Vec<Out>)
    ensures
        r.deep_view() == report(
            format,
            update_data(Seq::empty(), 0, 0, scope@),
            "no clove-installed plugins to update"@,
            Seq::empty(),
        ),
{
    let none: Vec<Json> = Vec::new();
    assert(none.deep_view() =~= Seq::<JsonView>::empty());
    emit(format, update_json(none, 0, 0, scope), "no clove-installed plugins to update")
}

/// What an update does first: there is nothing to update, or the registry is asked.
#[derive(Debug, PartialEq, Eq)]
pub enum UpdateStart {
    /// What is printed.
    Nothing(Vec<Out>),
    /// The packages, how many of them the registry is asked about, and how many not.
    Check { targets: Vec<Installed>, checked: usize, skipped: usize },
}

/// Begins an update with the packages that it is about.
pub fn start_update(
    format: OutputFormat,
    args: &PluginUpdateArgs,
    targets: Vec<Installed>,
) -> (r: UpdateStart)
    ensures
        match r {
            UpdateStart::Nothing(out) => targets.len() == 0 && out.deep_view() == report(
                format,
                update_data(Seq::empty(), 0, 0, scope_word(args.all, args.name is Some)),
                "no clove-installed plugins to update"@,
                Seq::empty(),
            ),
            UpdateStart::Check { targets: t, checked, skipped } => targets.len() > 0 && t == targets
                && checked == from_registry(targets.deep_view()) && checked + skipped
                == targets.len(),
        },
{
    if targets.len() == 0 {
        return UpdateStart::Nothing(emit_nothing_installed(format, update_scope(args)));
    }
    let (checked, skipped) = count_targets(&targets);
    UpdateStart::Check { targets, checked, skipped }
}

/// What is printed when nothing is updated.
pub fn emit_up_to_date(
    format: OutputFormat,
    checked: usize,
    skipped: usize,
    scope: &str,
    warnings: &Vec<String>,
) -> (r: Vec<Out>)
    ensures
        r.deep_view() == report(
            format,
            update_data(Seq::empty(), checked as int, skipped as int, scope@),
            "everything is up to date"@,
            warnings.deep_view(),
        ),
{
    let none: Vec<Json> = Vec::new();
    assert(none.deep_view() =~= Seq::<JsonView>::empty());
    emit_with_warnings(
        format,
        update_json(none, checked, skipped, scope),
        "everything is up to date",
        warnings,
    )
}

/// What comes next once there is something to update: the same question as before an
/// install.
pub fn ask_update(args: &PluginUpdateArgs, format: OutputFormat, tty: Terminals) -> (r: Result<
    Step,
    CloveError,
>)
    ensures
        step_view(r) == asked(args.yes, format, tty, "  Update these plugins? [y/N] "@),
{
    ask(args.yes, format, tty, "  Update these plugins? [y/N] ".to_owned())
}

/// The data of an update that was declined.
pub open spec fn update_declined(scope: Seq<char>) -> JsonView {
    obj(
        seq![
            ("updated"@, JsonView::Array(Seq::empty())),
            ("declined"@, JsonView::Bool(true)),
            ("scope"@, JsonView::Text(scope)),
        ],
    )
}

/// What is printed when the user says no to an update.
pub fn emit_update_declined(format: OutputFormat, scope: &str) -> (r: Vec<Out>)
    ensures
        r.deep_view() == report(
            format,
            update_declined(scope@),
            "not updated"@,
            Seq::empty(),
        ),
{
    let none: Vec<Json> = Vec::new();
    proof {
        crate::json::lemma_array_shape(none);
        assert(none.deep_view() =~= Seq::<JsonView>::empty());
    }
    let v: Vec<(String, Json)> = vec![
        ("updated".to_owned(), Json::Array(none)),
        ("declined".to_owned(), Json::Bool(true)),
        ("scope".to_owned(), string(scope)),
    ];
    assert(pairs(v@) =~= seq![
        ("updated"@, JsonView::Array(Seq::empty())),
        ("declined"@, JsonView::Bool(true)),
        ("scope"@, JsonView::Text(scope@)),
    ]);
    emit(format, object(v), "not updated")
}

impl Upgrade {
    /// cargo's arguments for this update.
    pub fn argv(&self, home: &str) -> (r: Vec<String>)
        ensures
            r.deep_view() == crate::registry::install::install_args(
                self.package@,
                Some(self.to@),
                self.bin@,
                home@,
                true,
            ),
    {
        crate::registry::install::cargo_install_argv(
            self.package.as_str(),
            Some(self.to.as_str()),
            self.bin.as_str(),
            home,
            true,
        )
    }
}

/// An update under way: what was updated, and what there is to warn of. One package that
/// fails does not discard the record of those already updated.
#[derive(Debug, PartialEq, Eq)]
pub struct UpdateRun {
    pub updated: Vec<Json>,
    pub warnings: Vec<String>,
}

/// The object of a package that was updated.
pub open spec fn updated_entry(u: UpgradeView) -> JsonView {
    obj(
        seq![
            ("package"@, JsonView::Text(u.package)),
            ("from"@, JsonView::Text(u.from)),
            ("to"@, JsonView::Text(u.to)),
        ],
    )
}

impl UpdateRun {
    /// Begins with the warnings of the plan.
    pub fn start(warnings: Vec<String>) -> (r: UpdateRun)
        ensures
            r.updated.deep_view() == Seq::<JsonView>::empty(),
            r.warnings.deep_view() == warnings.deep_view(),
    {
        let r = UpdateRun { updated: Vec::new(), warnings };
        assert(r.updated.deep_view() =~= Seq::<JsonView>::empty());
        r
    }

    fn warn(&mut self, message: String) -> (r: Out)
        ensures
            r.deep_view() == OutView::Note("warning: "@ + message@),
            final(self).updated == old(self).updated,
            final(self).warnings.deep_view() == old(self).warnings.deep_view().push(message@),
    {
        let ghost before = self.warnings.deep_view();
        let note = Out::Note(text::cat2("warning: ", message.as_str()));
        self.warnings.push(message);
        assert(self.warnings.deep_view() =~= before.push(message@));
        note
    }

    /// Records that cargo failed on a package.
    pub fn failed(&mut self, upgrade: &Upgrade, error: &CloveError) -> (r: Out)
        ensures
            final(self).updated == old(self).updated,
            final(self).warnings.deep_view() == old(self).warnings.deep_view().push(
                upgrade.package@ + " was not updated: "@ + told(error.deep_view()),
            ),
            r.deep_view() == OutView::Note(
                "warning: "@ + (upgrade.package@ + " was not updated: "@ + told(
                    error.deep_view(),
                )),
            ),
    {
        let cause = error.to_string();
        self.warn(text::cat3(upgrade.package.as_str(), " was not updated: ", cause.as_str()))
    }

    /// Judges a package that was built by what it answered: it counts as updated, or the
    /// reason to roll it back is returned.
    pub fn built(&mut self, upgrade: &Upgrade, probe: Option<&ProbedInfo>) -> (r: Option<String>)
        ensures
            r.deep_view() == unusable(upgrade.package@, answer_view(probe)),
            final(self).warnings == old(self).warnings,
            r is Some ==> final(self).updated == old(self).updated,
            r is None ==> final(self).updated.deep_view() == old(self).updated.deep_view().push(
                updated_entry(upgrade.deep_view()),
            ),
    {
        if let Some(reason) = incompatible_reason(upgrade.package.as_str(), probe) {
            return Some(reason);
        }
        let ghost before = self.updated.deep_view();
        let v: Vec<(String, Json)> = vec![
            ("package".to_owned(), string(upgrade.package.as_str())),
            ("from".to_owned(), string(upgrade.from.as_str())),
            ("to".to_owned(), string(upgrade.to.as_str())),
        ];
        assert(pairs(v@) =~= seq![
            ("package"@, JsonView::Text(upgrade.package@)),
            ("from"@, JsonView::Text(upgrade.from@)),
            ("to"@, JsonView::Text(upgrade.to@)),
        ]);
        let entry = object(v);
        self.updated.push(entry);
        assert(self.updated.deep_view() =~= before.push(updated_entry(upgrade.deep_view())));
        None
    }

    /// Records what came of a rollback.
    pub fn rolled_back(&mut self, message: String) -> (r: Out)
        ensures
            final(self).updated == old(self).updated,
            final(self).warnings.deep_view() == old(self).warnings.deep_view().push(message@),
            r.deep_view() == OutView::Note("warning: "@ + message@),
    {
        self.warn(message)
    }

    /// What is printed at the end.
    pub fn finish(self, format: OutputFormat, checked: usize, skipped: usize, scope: &str) -> (r:
        Vec<Out>)
        ensures
            r.deep_view() == report(
                format,
                update_data(self.updated.deep_view(), checked as int, skipped as int, scope@),
                "updated "@ + text::decimal(self.updated.len() as nat) + " plugin(s)"@,
                self.warnings.deep_view(),
            ),
    {
        let count = text::decimal_of(self.updated.len() as u64);
        let line = text::cat3("updated ", count.as_str(), " plugin(s)");
        emit_with_warnings(
            format,
            update_json(self.updated, checked, skipped, scope),
            line.as_str(),
            &self.warnings,
        )
    }
}

// ---- What is reported and decided -----------------------------------------------

/// A report carries its data and all its warnings, in each format in its own way.
pub proof fn law_a_report_carries_its_data(
    data: JsonView,
    human: Seq<char>,
    warnings: Seq<Seq<char>>,
    i: int,
)
    ensures
        report(OutputFormat::Human, data, human, warnings) == seq![OutView::Text(human)],
        report(OutputFormat::Json, data, human, warnings).len() == 1,
        report(OutputFormat::Json, data, human, warnings)[0] matches OutView::Json(v) && v.member(
            "data"@,
        ) == Some(data) && (v.member("_meta"@) matches Some(m) && m.member("warnings"@) == Some(
            texts(warnings),
        )),
        report(OutputFormat::Jsonl, data, human, warnings).len() == warnings.len() + 1,
        report(OutputFormat::Jsonl, data, human, warnings).last() matches OutView::Json(v)
            && v.member("data"@) == Some(data),
        0 <= i < warnings.len() ==> report(OutputFormat::Jsonl, data, human, warnings)[i]
            == OutView::Note("warning: "@ + warnings[i]),
        0 <= i < warnings.len() ==> warned_report(OutputFormat::Human, data, human, warnings)[i]
            == OutView::Note("warning: "@ + warnings[i]),
        warned_report(OutputFormat::Human, data, human, warnings).last() == OutView::Text(human),
        warned_report(OutputFormat::Json, data, human, warnings) == report(
            OutputFormat::Json,
            data,
            human,
            warnings,
        ),
{
    law_a_success_carries_its_data(data, warnings_meta(warnings));
    law_a_line_carries_its_data(data);
    let p = seq![("warnings"@, texts(warnings))];
    assert(warnings_meta(warnings) == obj(p));
    assert(p[0].0 == "warnings"@);
    law_distinct_pairs_are_members(p);
    assert(report(OutputFormat::Jsonl, data, human, warnings).last() == OutView::Json(
        item_line(data),
    ));
}

/// A binary shadows another exactly when it would be run in the place of one at another path.
pub proof fn law_only_another_file_is_shadowed(
    bin: Seq<char>,
    existing: Seq<char>,
    path: Seq<char>,
    exe_suffix: Seq<char>,
)
    ensures
        shadow_of(bin, None, path, exe_suffix) is None,
        shadow_of(bin, Some(path), path, exe_suffix) is None,
        subcommand(bin, exe_suffix) is Some && existing != path ==> shadow_of(
            bin,
            Some(existing),
            path,
            exe_suffix,
        ) == Some(existing),
        text::begins(
            shadow_told(bin, existing),
            "installing `"@ + bin + "` would shadow the `"@ + bin
                + "` already resolving from "@ + existing,
        ),
{
    let front = "installing `"@ + bin + "` would shadow the `"@ + bin
        + "` already resolving from "@ + existing;
    assert(shadow_told(bin, existing).take(front.len() as int) =~= front);
}

/// It is asked what was to be asked, and only what has an agreement runs.
pub proof fn law_the_question_is_the_one_to_ask(
    yes: bool,
    format: OutputFormat,
    tty: Terminals,
    question: Seq<char>,
)
    ensures
        asked(yes, format, tty, question) matches Ok(StepView::Ask(q)) ==> q == question && !yes,
        asked(yes, format, tty, question) matches Ok(StepView::Run) ==> yes,
        yes ==> asked(yes, format, tty, question) == Ok::<StepView, ErrorView>(StepView::Run),
        !yes && format == OutputFormat::Human && tty.stdin && tty.stderr ==> asked(
            yes,
            format,
            tty,
            question,
        ) is Ok,
        !yes && format != OutputFormat::Human ==> asked(yes, format, tty, question) is Err,
{
}

/// Of the crates found, those that build a binary of their own name can be installed, in order.
pub proof fn law_only_crates_with_their_own_binary_can_be_installed(items: Seq<PluginView>, x: PluginView)
    ensures
        installable(items).contains(x) <==> items.contains(x) && own_bin(x) is Ok,
        installable(items.push(x)) == (if own_bin(x) is Ok {
            installable(items).push(x)
        } else {
            installable(items)
        }),
    decreases items.len(),
{
    assert(items.push(x).drop_last() =~= items);
    if items.len() > 0 {
        let init = items.drop_last();
        law_only_crates_with_their_own_binary_can_be_installed(init, x);
        let rest = installable(init);
        let all = installable(items);
        if all.contains(x) {
            let k = choose|k: int| 0 <= k < all.len() && all[k] == x;
            if k < rest.len() {
                assert(rest[k] == x);
                let i = choose|i: int| 0 <= i < init.len() && init[i] == x;
                assert(items[i] == x);
            } else {
                assert(items[items.len() - 1] == x);
            }
        }
        if items.contains(x) && own_bin(x) is Ok {
            let i = choose|i: int| 0 <= i < items.len() && items[i] == x;
            if i < init.len() {
                assert(init[i] == x);
                let k = choose|k: int| 0 <= k < rest.len() && rest[k] == x;
                assert(all[k] == x);
            } else {
                assert(all[rest.len() as int] == x);
            }
        }
    }
}

/// The one crate that was found is chosen; where there is none, the error lists the names that
/// were looked for, and where there are several, those.
pub proof fn law_the_one_crate_is_chosen(name: Seq<char>, found: Seq<PluginView>, i: int)
    ensures
        found.len() == 1 ==> chosen(name, found) == Ok::<PluginView, ErrorView>(found[0]),
        chosen(name, found) matches Ok(c) ==> found.contains(c),
        found.len() == 0 ==> (chosen(name, found) matches Err(ErrorView::InvalidField {
            field,
            reason,
        }) && (0 <= i < candidates(name).len() ==> text::occurs(reason, candidates(name)[i]))),
        found.len() > 1 && installable(found).len() == 0 ==> (chosen(name, found) matches Err(
            ErrorView::InvalidField { field, reason },
        ) && (0 <= i < found.len() ==> text::occurs(reason, found[i].crate_name))),
        installable(found).len() > 1 ==> (chosen(name, found) matches Err(ErrorView::InvalidField {
            field,
            reason,
        }) && (0 <= i < installable(found).len() ==> text::occurs(
            reason,
            installable(found)[i].crate_name,
        ))),
{
    lemma_installable_are_found(found);
    if found.len() == 1 {
        reveal_with_fuel(installable, 2);
        assert(found.drop_last().len() == 0);
        assert(installable(found).len() > 0 ==> installable(found) =~= found);
    }
    let deciding = if installable(found).len() > 0 {
        installable(found)
    } else {
        found
    };
    if deciding.len() == 0 && 0 <= i < candidates(name).len() {
        let list = text::joined(candidates(name), ", "@);
        text::law_joined_parts_occur(candidates(name), ", "@, i);
        let front = "no plugin named `"@ + name
            + "` is published on crates.io (looked for "@;
        let back =
            "). Run `clove plugin list --all` to see what is published, or install from source with `clove plugin install --git <url>`."@;
        text::lemma_occurs_in_back(front, list, candidates(name)[i]);
        text::lemma_occurs_in_front(front + list, back, candidates(name)[i]);
    }
    if deciding.len() > 1 && 0 <= i < deciding.len() {
        let names = crate_names(deciding);
        let list = text::joined(names, ", "@);
        text::law_joined_parts_occur(names, ", "@, i);
        let front = "`"@ + name + "` is ambiguous — "@;
        text::lemma_occurs_in_back(front, list, names[i]);
        text::lemma_occurs_in_front(
            front + list,
            " all exist. Install one by its exact crate name."@,
            names[i],
        );
    }
}

proof fn lemma_installable_are_found(found: Seq<PluginView>)
    ensures
        installable(found).len() <= found.len(),
        forall|k: int|
            0 <= k < installable(found).len() ==> found.contains(
                #[trigger] installable(found)[k],
            ),
    decreases found.len(),
{
    if found.len() > 0 {
        let init = found.drop_last();
        lemma_installable_are_found(init);
        assert forall|k: int| 0 <= k < installable(found).len() implies found.contains(
            #[trigger] installable(found)[k],
        ) by {
            if k < installable(init).len() {
                assert(init.contains(installable(init)[k]));
                let j = choose|j: int| 0 <= j < init.len() && init[j] == installable(init)[k];
                assert(found[j] == installable(found)[k]);
            } else {
                assert(found[found.len() - 1] == installable(found)[k]);
            }
        }
    }
}

/// An install that was declined says that nothing was installed.
pub proof fn law_a_declined_install_says_so()
    ensures
        declined().member("installed"@) == Some(JsonView::Bool(false)),
        declined().member("declined"@) == Some(JsonView::Bool(true)),
{
    reveal_strlit("installed");
    reveal_strlit("declined");
    let p = seq![
        ("installed"@, JsonView::Bool(false)),
        ("declined"@, JsonView::Bool(true)),
    ];
    assert(declined() == obj(p));
    assert(p[0].0 == "installed"@ && p[1].0 == "declined"@);
    law_distinct_pairs_are_members(p);
}

/// What is installed already is named, with its version.
pub proof fn law_what_is_there_is_named(i: InstalledView)
    ensures
        already_there(i).member("installed"@) == Some(JsonView::Bool(false)),
        already_there(i).member("already_installed"@) == Some(JsonView::Bool(true)),
        already_there(i).member("package"@) == Some(JsonView::Text(i.package)),
        already_there(i).member("version"@) == Some(JsonView::Text(i.version)),
{
    reveal_strlit("installed");
    reveal_strlit("already_installed");
    reveal_strlit("package");
    reveal_strlit("version");
    let p = seq![
        ("installed"@, JsonView::Bool(false)),
        ("already_installed"@, JsonView::Bool(true)),
        ("package"@, JsonView::Text(i.package)),
        ("version"@, JsonView::Text(i.version)),
    ];
    assert(already_there(i) == obj(p));
    assert(p[0].0 == "installed"@ && p[1].0 == "already_installed"@ && p[2].0 == "package"@ && p[3].0 == "version"@);
    assert("package"@[0] != "version"@[0]);
    law_distinct_pairs_are_members(p);
}

/// An install names the package, its version, its binary and where that is.
pub proof fn law_an_install_names_what_it_installed(
    package: Seq<char>,
    version: Option<Seq<char>>,
    bin: Seq<char>,
    path: Seq<char>,
)
    ensures
        installed_data(package, version, bin, path).member("installed"@) == Some(JsonView::Bool(true)),
        installed_data(package, version, bin, path).member("package"@) == Some(JsonView::Text(package)),
        installed_data(package, version, bin, path).member("version"@) == Some(text_or_null(version)),
        installed_data(package, version, bin, path).member("binary"@) == Some(JsonView::Text(bin)),
        installed_data(package, version, bin, path).member("path"@) == Some(JsonView::Text(path)),
        installed_told(package, Some(bin), path) == "installed "@ + package + " "@ + bin + " as "@
            + path,
{
    reveal_strlit("installed");
    reveal_strlit("package");
    reveal_strlit("version");
    reveal_strlit("binary");
    reveal_strlit("path");
    let p = seq![
        ("installed"@, JsonView::Bool(true)),
        ("package"@, JsonView::Text(package)),
        ("version"@, text_or_null(version)),
        ("binary"@, JsonView::Text(bin)),
        ("path"@, JsonView::Text(path)),
    ];
    assert(installed_data(package, version, bin, path) == obj(p));
    assert(p[0].0 == "installed"@ && p[1].0 == "package"@ && p[2].0 == "version"@ && p[3].0 == "binary"@ && p[4].0 == "path"@);
    assert("package"@[0] != "version"@[0]);
    assert forall|i: int, j: int| 0 <= i < j < p.len() implies (#[trigger] p[i]).0 != (
    #[trigger] p[j]).0 by {
        assert(i == 0 || i == 1 || i == 2 || i == 3);
        assert(j == 1 || j == 2 || j == 3 || j == 4);
    }
    law_distinct_pairs_are_members(p);
}

/// An update lists what was updated, and how many were looked at and passed by.
pub proof fn law_an_update_is_accounted_for(
    updated: Seq<JsonView>,
    checked: int,
    skipped: int,
    scope: Seq<char>,
)
    ensures
        update_data(updated, checked, skipped, scope).member("updated"@) == Some(JsonView::Array(updated)),
        update_data(updated, checked, skipped, scope).member("checked"@) == Some(num(checked)),
        update_data(updated, checked, skipped, scope).member("skipped"@) == Some(num(skipped)),
        update_data(updated, checked, skipped, scope).member("scope"@) == Some(JsonView::Text(scope)),
{
    reveal_strlit("updated");
    reveal_strlit("checked");
    reveal_strlit("skipped");
    reveal_strlit("scope");
    let p = seq![
        ("updated"@, JsonView::Array(updated)),
        ("checked"@, num(checked)),
        ("skipped"@, num(skipped)),
        ("scope"@, JsonView::Text(scope)),
    ];
    assert(update_data(updated, checked, skipped, scope) == obj(p));
    assert(p[0].0 == "updated"@ && p[1].0 == "checked"@ && p[2].0 == "skipped"@ && p[3].0 == "scope"@);
    assert("updated"@[0] != "checked"@[0]);
    assert("updated"@[0] != "skipped"@[0]);
    assert("checked"@[0] != "skipped"@[0]);
    law_distinct_pairs_are_members(p);
}

/// An updated package shows where it came from and where it went.
pub proof fn law_an_updated_package_shows_both_versions(u: UpgradeView)
    ensures
        updated_entry(u).member("package"@) == Some(JsonView::Text(u.package)),
        updated_entry(u).member("from"@) == Some(JsonView::Text(u.from)),
        updated_entry(u).member("to"@) == Some(JsonView::Text(u.to)),
{
    reveal_strlit("package");
    reveal_strlit("from");
    reveal_strlit("to");
    let p = seq![
        ("package"@, JsonView::Text(u.package)),
        ("from"@, JsonView::Text(u.from)),
        ("to"@, JsonView::Text(u.to)),
    ];
    assert(updated_entry(u) == obj(p));
    assert(p[0].0 == "package"@ && p[1].0 == "from"@ && p[2].0 == "to"@);
    law_distinct_pairs_are_members(p);
}

/// A crate is refused only for a name that is not legal, for failing a gate, or for being
/// yanked unasked.
pub proof fn law_nothing_is_refused_without_a_reason(
    c: PluginView,
    dependents: Option<Seq<Seq<char>>>,
    strict: bool,
    allow_yanked: bool,
)
    ensures
        refused(c, dependents, strict, allow_yanked) is Some <==> {
            ||| !crate::registry::is_crate_name(c.crate_name)
            ||| gates_of(c, dependents).blocked(strict) is Some
            ||| c.is_yanked() && !allow_yanked
        },
        refused(c, dependents, strict, true) is Some ==> refused(
            c,
            dependents,
            strict,
            allow_yanked,
        ) is Some,
        refused(c, dependents, false, allow_yanked) is Some ==> refused(
            c,
            dependents,
            strict,
            allow_yanked,
        ) is Some,
{
    crate::registry::law_accepted_names_are_the_legal_ones(c.crate_name);
}

/// A plugin is unusable exactly when it asks for a newer interface than there is; the reason
/// names it and both interfaces. A plugin that said nothing is kept.
pub proof fn law_only_a_too_new_plugin_is_unusable(package: Seq<char>, p: ProbeView)
    ensures
        unusable(package, None) is None,
        unusable(package, Some(p)) is Some <==> p.min_clove_plugin_api > PLUGIN_API_VERSION,
        unusable(package, Some(p)) matches Some(why) ==> text::begins(
            why,
            "`"@ + package + "` needs a newer clove (it requires plugin API "@ + text::decimal(
                p.min_clove_plugin_api as nat,
            ) + ", this clove provides "@ + text::decimal(PLUGIN_API_VERSION as nat),
        ),
{
    if let Some(why) = unusable(package, Some(p)) {
        let front = "`"@ + package + "` needs a newer clove (it requires plugin API "@
            + text::decimal(p.min_clove_plugin_api as nat) + ", this clove provides "@
            + text::decimal(PLUGIN_API_VERSION as nat);
        assert(why.take(front.len() as int) =~= front);
    }
}

/// A rollback that worked says so, and keeps the reason in front.
pub proof fn law_a_rollback_keeps_its_reason(
    reason: Seq<char>,
    path: Seq<char>,
    uninstalled: bool,
    still_there: bool,
)
    ensures
        text::begins(rollback_told(reason, path, uninstalled, still_there), reason),
        uninstalled && !still_there ==> text::ends(
            rollback_told(reason, path, uninstalled, still_there),
            "; the install has been rolled back"@,
        ),
{
    let s = rollback_told(reason, path, uninstalled, still_there);
    assert(s.take(reason.len() as int) =~= reason);
    assert(uninstalled && !still_there ==> s.skip(reason.len() as int)
        =~= "; the install has been rolled back"@);
}

/// An install warns of a plugin that is behind this clove or said nothing, of the copy that it
/// shadows, and of a check that could not be made; and of nothing else.
pub proof fn law_an_install_warns_of_what_is_unsure(
    package: Seq<char>,
    bin: Seq<char>,
    p: ProbeView,
    shadowed: Option<Seq<char>>,
    depends: DependsOnPlugin,
)
    ensures
        ({
            let w = install_warnings(package, bin, Some(p), shadowed, depends);
            let silent = install_warnings(package, bin, None, shadowed, depends);
            &&& w.len() == (if p.max_clove_plugin_api < PLUGIN_API_VERSION {
                1int
            } else {
                0
            }) + (if shadowed is Some {
                1int
            } else {
                0
            }) + (if depends == DependsOnPlugin::Unverifiable {
                1int
            } else {
                0
            })
            &&& p.max_clove_plugin_api < PLUGIN_API_VERSION ==> text::begins(
                w[0],
                "`"@ + package + "` predates this clove (plugin API "@ + text::decimal(
                    p.max_clove_plugin_api as nat,
                ),
            )
            &&& shadowed matches Some(e) ==> w.contains(
                "`"@ + bin + "` now shadows the copy at "@ + e,
            ) && silent.contains("`"@ + bin + "` now shadows the copy at "@ + e)
            &&& depends == DependsOnPlugin::Unverifiable ==> text::begins(
                w.last(),
                "could not verify that `"@ + package,
            )
            &&& text::begins(silent[0], "`"@ + package + "` did not answer"@)
        }),
{
    reveal_strlit("` did not answer");
    reveal_strlit(
        "` did not answer --clove-plugin-info; it is installed, but clove cannot report what it provides",
    );
    let w = install_warnings(package, bin, Some(p), shadowed, depends);
    let silent = install_warnings(package, bin, None, shadowed, depends);
    let a = "`"@ + package + "` predates this clove (plugin API "@ + text::decimal(
        p.max_clove_plugin_api as nat,
    );
    let old = p.max_clove_plugin_api < PLUGIN_API_VERSION;
    assert(old ==> w[0].take(a.len() as int) =~= a);
    if let Some(e) = shadowed {
        let line = "`"@ + bin + "` now shadows the copy at "@ + e;
        assert(w[if old {
            1int
        } else {
            0
        }] == line);
        assert(silent[1] == line);
    }
    let b = "could not verify that `"@ + package;
    assert(depends == DependsOnPlugin::Unverifiable ==> w.last().take(b.len() as int) =~= b);
    let c = "`"@ + package + "` did not answer"@;
    assert(silent[0].take(c.len() as int) =~= c);
}

/// Only a run of cargo that ended well is no problem.
pub proof fn law_only_a_successful_run_is_no_problem(run: CargoRun, what: Seq<char>)
    ensures
        cargo_problem(run, what) is None <==> run is Success,
        run matches CargoRun::NotStarted(e) ==> (cargo_problem(run, what) matches Some(
            ErrorView::Registry { message },
        ) && text::ends(message, e@)),
        run matches CargoRun::Failed(code) ==> cargo_problem(run, what) == Some(
            cargo_failed(what, code),
        ),
        run is Missing ==> cargo_problem(run, what) == Some(no_cargo()),
{
    if let CargoRun::NotStarted(e) = run {
        let s = "could not run cargo: "@ + e@;
        assert(s.skip(s.len() - e@.len()) =~= e@);
    }
}

/// A repository is asked for with the reference that was named, at an address and for a
/// package that are legal.
pub proof fn law_a_git_request_keeps_its_reference(
    url: Seq<char>,
    tag: Option<Seq<char>>,
    rev: Option<Seq<char>>,
    branch: Option<Seq<char>>,
    package: Option<Seq<char>>,
)
    ensures
        git_request(url, tag, rev, branch, package) matches Ok(reference) ==> chosen_ref(
            tag,
            rev,
            branch,
        ) == Ok::<Option<GitRefView>, ErrorView>(reference) && git_url_problem(url) is None && (
        package matches Some(p) ==> crate::registry::is_crate_name(p)),
        git_url_problem(url) is None && chosen_ref(tag, rev, branch) is Ok && (package matches Some(
            p,
        ) ==> crate::registry::is_crate_name(p)) ==> git_request(
            url,
            tag,
            rev,
            branch,
            package,
        ) is Ok,
{
    if let Some(p) = package {
        crate::registry::law_accepted_names_are_the_legal_ones(p);
    }
}

/// A build that is not pinned is warned of, and so is what it shadows; nothing else is.
pub proof fn law_an_unpinned_build_is_warned_of(
    url: Seq<char>,
    pinned: bool,
    bin: Seq<char>,
    shadowed: Option<Seq<char>>,
)
    ensures
        git_warnings(url, pinned, bin, shadowed).len() == (if pinned {
            0int
        } else {
            1
        }) + (if shadowed is Some {
            1int
        } else {
            0
        }),
        !pinned ==> git_warnings(url, pinned, bin, shadowed)[0] == git_source::unpinned(url),
        shadowed matches Some(e) ==> git_warnings(url, pinned, bin, shadowed).last() == "`"@ + bin
            + "` now shadows the copy at "@ + e,
{
}

proof fn lemma_gathered_are_meant(
    acc: Seq<InstalledView>,
    all: Seq<InstalledView>,
    crate_name: Seq<char>,
    exe_suffix: Seq<char>,
)
    ensures
        gathered(acc, all, crate_name, exe_suffix).len() >= acc.len(),
        forall|k: int|
            0 <= k < acc.len() ==> #[trigger] gathered(acc, all, crate_name, exe_suffix)[k]
                == acc[k],
        forall|k: int|
            acc.len() <= k < gathered(acc, all, crate_name, exe_suffix).len() ==> all.contains(
                #[trigger] gathered(acc, all, crate_name, exe_suffix)[k],
            ) && is_meant(gathered(acc, all, crate_name, exe_suffix)[k], crate_name, exe_suffix),
        forall|j: int|
            0 <= j < all.len() && is_meant(#[trigger] all[j], crate_name, exe_suffix)
                ==> has_package(gathered(acc, all, crate_name, exe_suffix), all[j].package),
    decreases all.len(),
{
    if all.len() > 0 {
        let init = all.drop_last();
        lemma_gathered_are_meant(acc, init, crate_name, exe_suffix);
        let before = gathered(acc, init, crate_name, exe_suffix);
        let after = gathered(acc, all, crate_name, exe_suffix);
        assert forall|k: int| acc.len() <= k < after.len() implies all.contains(
            #[trigger] after[k],
        ) && is_meant(after[k], crate_name, exe_suffix) by {
            if k < before.len() {
                assert(after[k] == before[k]);
                assert(init.contains(before[k]));
                let j = choose|j: int| 0 <= j < init.len() && init[j] == before[k];
                assert(all[j] == after[k]);
            } else {
                assert(all[all.len() - 1] == after[k]);
            }
        }
        assert forall|j: int| 0 <= j < all.len() && is_meant(
            #[trigger] all[j],
            crate_name,
            exe_suffix,
        ) implies has_package(after, all[j].package) by {
            if j < init.len() {
                assert(init[j] == all[j]);
                assert(has_package(before, all[j].package));
                let k = choose|k: int|
                    0 <= k < before.len() && (#[trigger] before[k]).package == all[j].package;
                assert(after[k] == before[k]);
            } else if has_package(before, all[j].package) {
                let k = choose|k: int|
                    0 <= k < before.len() && (#[trigger] before[k]).package == all[j].package;
                assert(after[k] == before[k]);
            } else {
                assert(after[before.len() as int] == all[j]);
            }
        }
    }
}

/// What a list of names means is installed, and every installed package that one of the names
/// means is among it.
pub proof fn law_every_package_that_is_meant_is_found(
    names: Seq<Seq<char>>,
    all: Seq<InstalledView>,
    exe_suffix: Seq<char>,
)
    ensures
        forall|k: int|
            0 <= k < meant_by(names, all, exe_suffix).len() ==> all.contains(
                #[trigger] meant_by(names, all, exe_suffix)[k],
            ),
        forall|n: int, j: int|
            0 <= n < names.len() && 0 <= j < all.len() && is_meant(
                #[trigger] all[j],
                #[trigger] names[n],
                exe_suffix,
            ) ==> has_package(meant_by(names, all, exe_suffix), all[j].package),
    decreases names.len(),
{
    if names.len() > 0 {
        let init = names.drop_last();
        law_every_package_that_is_meant_is_found(init, all, exe_suffix);
        let acc = meant_by(init, all, exe_suffix);
        lemma_gathered_are_meant(acc, all, names.last(), exe_suffix);
        let after = meant_by(names, all, exe_suffix);
        assert forall|k: int| 0 <= k < after.len() implies all.contains(#[trigger] after[k]) by {
            if k < acc.len() {
                assert(after[k] == acc[k]);
            }
        }
        assert forall|n: int, j: int|
            0 <= n < names.len() && 0 <= j < all.len() && is_meant(
                #[trigger] all[j],
                #[trigger] names[n],
                exe_suffix,
            ) implies has_package(after, all[j].package) by {
            if n < init.len() {
                assert(init[n] == names[n]);
                assert(has_package(acc, all[j].package));
                let k = choose|k: int|
                    0 <= k < acc.len() && (#[trigger] acc[k]).package == all[j].package;
                assert(after[k] == acc[k]);
            }
        }
    }
}

/// A name stands for the package that owns the command it names, with or without `clove-` in
/// front; what it stands for is installed.
pub proof fn law_a_name_stands_for_its_owner(
    all: Seq<InstalledView>,
    name: Seq<char>,
    exe_suffix: Seq<char>,
)
    ensures
        !text::begins(name, "clove-"@) ==> bare_name(name) == name,
        bare_name("clove-"@ + name) == name,
        owner(all, bare_name(name), exe_suffix) matches Some(i) ==> installed_named(
            all,
            name,
            exe_suffix,
        ) == Ok::<Option<InstalledView>, ErrorView>(Some(i)),
        owner(all, bare_name(name), exe_suffix) is None ==> (installed_named(
            all,
            name,
            exe_suffix,
        ) matches Ok(Some(i)) ==> all.contains(i)),
        installed_named(all, name, exe_suffix) == Ok::<Option<InstalledView>, ErrorView>(None)
            ==> forall|n: int, j: int|
            0 <= n < candidates(bare_name(name)).len() && 0 <= j < all.len() ==> !is_meant(
                #[trigger] all[j],
                #[trigger] candidates(bare_name(name))[n],
                exe_suffix,
            ),
{
    let s = "clove-"@ + name;
    assert(s.take("clove-"@.len() as int) =~= "clove-"@);
    assert(s.skip("clove-"@.len() as int) =~= name);
    let bare = bare_name(name);
    law_every_package_that_is_meant_is_found(candidates(bare), all, exe_suffix);
    let found = meant_by(candidates(bare), all, exe_suffix);
    if found.len() == 1 {
        assert(all.contains(found[0]));
    }
}

/// What is uninstalled is what the name stands for; what clove did not install is not touched.
pub proof fn law_only_clove_installs_are_uninstalled(
    all: Seq<InstalledView>,
    name: Seq<char>,
    resolved: Option<Seq<char>>,
    home: Seq<char>,
    exe_suffix: Seq<char>,
)
    ensures
        uninstall_of(all, name, resolved, home, exe_suffix) matches Ok(i) ==> installed_named(
            all,
            name,
            exe_suffix,
        ) == Ok::<Option<InstalledView>, ErrorView>(Some(i)),
        installed_named(all, name, exe_suffix) == Ok::<Option<InstalledView>, ErrorView>(None)
            ==> uninstall_of(all, name, resolved, home, exe_suffix) == Err::<
            InstalledView,
            ErrorView,
        >(
            invalid_field(
                "name"@,
                match resolved {
                    Some(path) => foreign_install(bare_name(name), path, home),
                    None => "no plugin `"@ + bare_name(name) + "` was installed by clove"@,
                },
            ),
        ),
        update_of(None, all, exe_suffix) == Ok::<Seq<InstalledView>, ErrorView>(all),
        update_of(Some(name), all, exe_suffix) matches Ok(ts) ==> ts.len() == 1
            && installed_named(all, name, exe_suffix) == Ok::<Option<InstalledView>, ErrorView>(
            Some(ts[0]),
        ),
        installed_named(all, name, exe_suffix) is Err || installed_named(all, name, exe_suffix)
            == Ok::<Option<InstalledView>, ErrorView>(None) ==> update_of(
            Some(name),
            all,
            exe_suffix,
        ) is Err,
{
}

/// An uninstall succeeds only when no binary is left behind; otherwise the error names each.
pub proof fn law_an_uninstall_leaves_nothing_behind(
    format: OutputFormat,
    i: InstalledView,
    left: Seq<Seq<char>>,
    k: int,
)
    ensures
        uninstalled(format, i, left) is Ok <==> left.len() == 0,
        0 <= k < left.len() ==> (uninstalled(format, i, left) matches Err(ErrorView::Registry {
            message,
        }) && text::occurs(message, left[k]) && text::occurs(message, i.package)),
        uninstalled(OutputFormat::Json, i, Seq::empty()) matches Ok(out) && (out[0] matches
            OutView::Json(v) && (v.member("data"@) matches Some(d) && d.member("package"@) == Some(
            JsonView::Text(i.package),
        ) && d.member("version"@) == Some(JsonView::Text(i.version)) && d.member("uninstalled"@)
            == Some(JsonView::Bool(true)))),
        uninstalled(OutputFormat::Human, i, Seq::empty()) == Ok::<Seq<OutView>, ErrorView>(
            seq![OutView::Text("uninstalled "@ + i.package + " "@ + i.version)],
        ),
{
    if 0 <= k < left.len() {
        let which = if left.len() == 1 {
            "this binary is"@
        } else {
            "these binaries are"@
        };
        let front = "cargo reported success but "@ + which
            + " still present after uninstalling `"@;
        let list = text::joined(left, ", "@);
        let end = ". It is still on the plugin search path — remove it manually."@;
        text::lemma_occurs_between(front, i.package, "`: "@);
        text::lemma_occurs_in_front(front + i.package + "`: "@, list, i.package);
        text::lemma_occurs_in_front(front + i.package + "`: "@ + list, end, i.package);
        text::law_joined_parts_occur(left, ", "@, k);
        text::lemma_occurs_in_back(front + i.package + "`: "@, list, left[k]);
        text::lemma_occurs_in_front(front + i.package + "`: "@ + list, end, left[k]);
    }
    let data = obj(
        seq![
            ("uninstalled"@, JsonView::Bool(true)),
            ("package"@, JsonView::Text(i.package)),
            ("version"@, JsonView::Text(i.version)),
        ],
    );
    reveal_strlit("uninstalled");
    reveal_strlit("package");
    reveal_strlit("version");
    let p = seq![
        ("uninstalled"@, JsonView::Bool(true)),
        ("package"@, JsonView::Text(i.package)),
        ("version"@, JsonView::Text(i.version)),
    ];
    assert(data == obj(p));
    assert(p[0].0 == "uninstalled"@ && p[1].0 == "package"@ && p[2].0 == "version"@);
    assert("package"@[0] != "version"@[0]);
    law_distinct_pairs_are_members(p);

    law_a_success_carries_its_data(data, warnings_meta(Seq::empty()));
}

/// One more package from the registry is one more to check; one from elsewhere is not.
pub proof fn law_registry_packages_are_counted(all: Seq<InstalledView>, i: InstalledView)
    ensures
        from_registry(Seq::empty()) == 0,
        i.source is Registry ==> from_registry(all.push(i)) == from_registry(all) + 1,
        !(i.source is Registry) ==> from_registry(all.push(i)) == from_registry(all),
{
    assert(all.push(i).drop_last() =~= all);
}

/// Every package with a newer version that may be installed is upgraded to it, every one that
/// is held back is told of, each in its order; and nothing else is.
pub proof fn law_every_package_is_dealt_with(
    all: Seq<CheckedView>,
    c: CheckedView,
    dependents: Option<Seq<Seq<char>>>,
    strict: bool,
    allow_yanked: bool,
)
    ensures
        ({
            let ups = upgrades_of(all, dependents, strict, allow_yanked);
            let held = blocked_of(all, dependents, strict, allow_yanked);
            let more = upgrades_of(all.push(c), dependents, strict, allow_yanked);
            let told = blocked_of(all.push(c), dependents, strict, allow_yanked);
            match (verdict_of(c.installed, c.latest), c.latest) {
                (VerdictView::Newer(to), Some(p)) => {
                    let g = gates_of(p, dependents);
                    if g.blocked(strict) is Some || (p.is_yanked() && !allow_yanked) {
                        &&& more == ups
                        &&& told.len() == held.len() + 1 && told.drop_last() == held
                        &&& text::begins(
                            told.last(),
                            "  "@ + c.installed.package + " is not updated: "@,
                        )
                    } else {
                        &&& told == held
                        &&& more.len() == ups.len() + 1 && more.drop_last() == ups
                        &&& more.last().package == c.installed.package
                        &&& more.last().from == c.installed.version
                        &&& more.last().to == to
                        &&& more.last().bin == p.crate_name
                    }
                },
                _ => more == ups && told == held,
            }
        }),
{
    assert(all.push(c).drop_last() =~= all);
    let ups = upgrades_of(all, dependents, strict, allow_yanked);
    let held = blocked_of(all, dependents, strict, allow_yanked);
    let more = upgrades_of(all.push(c), dependents, strict, allow_yanked);
    let told = blocked_of(all.push(c), dependents, strict, allow_yanked);
    if let (VerdictView::Newer(to), Some(p)) = (verdict_of(c.installed, c.latest), c.latest) {
        let front = "  "@ + c.installed.package + " is not updated: "@;
        match fate(c, dependents, strict, allow_yanked) {
            Fate::Blocked(line) => {
                if gates_of(p, dependents).blocked(strict) is Some {
                    assert(line.take(front.len() as int) =~= front);
                } else {
                    let other = "  "@ + c.installed.package + " is not updated: version "@;
                    reveal_strlit(" is not updated: version ");
                    reveal_strlit(" is not updated: ");
                    assert(" is not updated: version "@.take(17) =~= " is not updated: "@);
                    assert(line.take(front.len() as int) =~= front);
                }
                assert(told.drop_last() =~= held);
            },
            Fate::Upgrade(u) => {
                assert(more.drop_last() =~= ups);
            },
            Fate::Hold => {
                law_passing_the_gates(p, dependents, strict);
            },
        }
    }
}

/// The plan has a line for each package, in order: what comes of it.
pub proof fn law_the_plan_shows_every_package(all: Seq<CheckedView>, lines: Seq<Seq<char>>, i: int)
    ensures
        plan_notes(all).len() == all.len(),
        0 <= i < all.len() ==> plan_notes(all)[i] == OutView::Note(
            update_text(all[i].installed, verdict_of(all[i].installed, all[i].latest)),
        ),
        plain_notes(lines).len() == lines.len() && trimmed_all(lines).len() == lines.len(),
        0 <= i < lines.len() ==> plain_notes(lines)[i] == OutView::Note(lines[i])
            && trimmed_all(lines)[i] == text::trimmed(lines[i]),
        scope_word(true, true) == "all"@ && scope_word(false, false) == "all"@ && scope_word(
            false,
            true,
        ) == "one"@,
{
}

/// An update that was declined says that nothing was updated.
pub proof fn law_a_declined_update_says_so(scope: Seq<char>)
    ensures
        update_declined(scope).member("updated"@) == Some(JsonView::Array(Seq::empty())),
        update_declined(scope).member("declined"@) == Some(JsonView::Bool(true)),
        update_declined(scope).member("scope"@) == Some(JsonView::Text(scope)),
{
    reveal_strlit("updated");
    reveal_strlit("declined");
    reveal_strlit("scope");
    let p = seq![
        ("updated"@, JsonView::Array(Seq::empty())),
        ("declined"@, JsonView::Bool(true)),
        ("scope"@, JsonView::Text(scope)),
    ];
    assert(update_declined(scope) == obj(p));
    assert(p[0].0 == "updated"@ && p[1].0 == "declined"@ && p[2].0 == "scope"@);
    law_distinct_pairs_are_members(p);
}

} // verus!
