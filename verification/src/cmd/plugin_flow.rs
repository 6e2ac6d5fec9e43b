//! Installing and updating plugins step by step: which outside work comes next, and what
//! its result leads to. The caller asks, runs cargo and probes; nothing else is left to it.

use vstd::prelude::*;

use crate::cli::{PluginInstallArgs, PluginUpdateArgs};
use crate::cmd::plugin_install::{
    already_there, answer_view, ask_update, asked, blocked_of, cargo_outcome, cargo_problem,
    cleared_step, declined, emit_declined, emit_up_to_date, emit_update_declined, fate,
    gate_subcommand, git_warnings, install_warnings, installed_data, installed_told,
    law_a_report_carries_its_data, law_updates_pass_the_gates, lines_view, names_view, plain_notes, plan_notes, plan_update,
    refused, report, roll_back, rollback_told, trimmed_all, unusable, update_data, updated_entry,
    upgrades_of, warned_report, Built, CargoRun, Checked, CheckedView, Cleared, Fate, Inspected,
    Step, StepView, Terminals, UpdateRun, Upgrade, UpgradeView,
};
use crate::error::{invalid, invalid_field, told, CloveError, ErrorView};
use crate::json::{law_distinct_pairs_are_members, obj, JsonView};
use crate::output::{Out, OutView, OutputFormat};
use crate::path;
use crate::plugin::{ProbeView, ProbedInfo};
use crate::registry::git_source::{git_install_args, GitRefView};
use crate::registry::install::{
    borrowed, gates_of, git_prompt, install_args, installed_binary_path_with, is_binary_path,
    law_updates_only_move_forward, prompt, rollback_argv, uninstall_args, GatesView,
};
use crate::registry::provenance::{owner, InstalledView};
use crate::registry::PluginView;
use crate::text;
use crate::version::semver_greater;

verus! {

// ---- Installing ---------------------------------------------------------------

/// A plugin that may be built.
#[derive(Debug, PartialEq, Eq)]
pub enum Candidate {
    Registry(Cleared),
    Git(Inspected),
}

/// The model of a [`Candidate`].
pub enum CandidateView {
    Registry { candidate: PluginView, gates: GatesView, bin: Seq<char>, path: Seq<char> },
    Git {
        url: Seq<char>,
        package: Seq<char>,
        bin: Seq<char>,
        commit: Seq<char>,
        path: Seq<char>,
        pinned: bool,
    },
}

impl DeepView for Candidate {
    type V = CandidateView;

    open spec fn deep_view(&self) -> CandidateView {
        match self {
            Candidate::Registry(c) => CandidateView::Registry {
                candidate: c.candidate.deep_view(),
                gates: c.gates.deep_view(),
                bin: c.bin@,
                path: c.path@,
            },
            Candidate::Git(i) => CandidateView::Git {
                url: i.url@,
                package: i.package@,
                bin: i.bin@,
                commit: i.commit@,
                path: i.path@,
                pinned: i.pinned,
            },
        }
    }
}

impl CandidateView {
    /// The package that cargo is asked for.
    pub open spec fn package(self) -> Seq<char> {
        match self {
            CandidateView::Registry { candidate, .. } => candidate.crate_name,
            CandidateView::Git { package, .. } => package,
        }
    }

    /// The binary that it builds.
    pub open spec fn bin(self) -> Seq<char> {
        match self {
            CandidateView::Registry { bin, .. } => bin,
            CandidateView::Git { bin, .. } => bin,
        }
    }

    /// The file that the binary will be.
    pub open spec fn path(self) -> Seq<char> {
        match self {
            CandidateView::Registry { path, .. } => path,
            CandidateView::Git { path, .. } => path,
        }
    }

    /// The argument that is blamed for a refusal.
    pub open spec fn field(self) -> Seq<char> {
        match self {
            CandidateView::Registry { .. } => "name"@,
            CandidateView::Git { .. } => "--git"@,
        }
    }

    /// What is asked before it is built.
    pub open spec fn question(self, shadowed: Option<Seq<char>>) -> Seq<char> {
        match self {
            CandidateView::Registry { candidate, gates, .. } => prompt(candidate, gates, shadowed),
            CandidateView::Git { url, package, bin, commit, .. } => git_prompt(
                url,
                package,
                bin,
                commit,
                shadowed,
            ),
        }
    }

    /// cargo's arguments. From git, cargo builds the very commit that was inspected.
    pub open spec fn args(self, home: Seq<char>, force: bool) -> Seq<Seq<char>> {
        match self {
            CandidateView::Registry { candidate, gates, bin, .. } => install_args(
                candidate.crate_name,
                gates.version,
                bin,
                home,
                force,
            ),
            CandidateView::Git { url, package, bin, commit, .. } => git_install_args(
                url,
                Some(GitRefView::Rev(commit)),
                package,
                bin,
                home,
                force,
            ),
        }
    }

    /// What is printed once it is there.
    pub open spec fn success(
        self,
        format: OutputFormat,
        shadowed: Option<Seq<char>>,
        probe: Option<ProbeView>,
    ) -> Seq<OutView> {
        match self {
            CandidateView::Registry { candidate, gates, bin, path } => warned_report(
                format,
                installed_data(candidate.crate_name, gates.version, bin, path),
                installed_told(candidate.crate_name, gates.version, bin),
                install_warnings(
                    candidate.crate_name,
                    bin,
                    probe,
                    shadowed,
                    gates.depends_on_plugin,
                ),
            ),
            CandidateView::Git { url, package, bin, commit, path, pinned } => warned_report(
                format,
                obj(
                    seq![
                        ("installed"@, JsonView::Bool(true)),
                        ("package"@, JsonView::Text(package)),
                        ("binary"@, JsonView::Text(bin)),
                        ("source"@, JsonView::Text(url)),
                        ("commit"@, JsonView::Text(commit)),
                        ("path"@, JsonView::Text(path)),
                    ],
                ),
                "installed "@ + package + " from "@ + url + " as "@ + bin,
                git_warnings(url, pinned, bin, shadowed),
            ),
        }
    }
}

/// An install under way.
#[derive(Debug, PartialEq, Eq)]
pub struct Job {
    pub what: Candidate,
    /// The copy that the new binary will shadow.
    pub shadowed: Option<String>,
    /// The root that is installed into.
    pub home: String,
    pub force: bool,
    pub format: OutputFormat,
}

/// The model of a [`Job`].
pub struct JobView {
    pub what: CandidateView,
    pub shadowed: Option<Seq<char>>,
    pub home: Seq<char>,
    pub force: bool,
    pub format: OutputFormat,
}

impl DeepView for Job {
    type V = JobView;

    open spec fn deep_view(&self) -> JobView {
        JobView {
            what: self.what.deep_view(),
            shadowed: self.shadowed.deep_view(),
            home: self.home@,
            force: self.force,
            format: self.format,
        }
    }
}

/// What is to be done next.
#[derive(Debug, PartialEq, Eq)]
pub enum Next {
    /// Ask this.
    Ask(Job, String),
    /// Run cargo with these arguments.
    Build(Job, Vec<String>),
    /// Ask this binary what it provides.
    Probe(Job, String),
    /// The plugin is of no use, for this reason: run cargo with these arguments.
    Remove(Job, String, Vec<String>),
    /// That was all.
    End(Result<Vec<Out>, CloveError>),
}

/// The model of a [`Next`].
pub enum NextView {
    Ask(JobView, Seq<char>),
    Build(JobView, Seq<Seq<char>>),
    Probe(JobView, Seq<char>),
    Remove(JobView, Seq<char>, Seq<Seq<char>>),
    End(Result<Seq<OutView>, ErrorView>),
}

impl DeepView for Next {
    type V = NextView;

    open spec fn deep_view(&self) -> NextView {
        match self {
            Next::Ask(job, question) => NextView::Ask(job.deep_view(), question@),
            Next::Build(job, argv) => NextView::Build(job.deep_view(), argv.deep_view()),
            Next::Probe(job, path) => NextView::Probe(job.deep_view(), path@),
            Next::Remove(job, reason, argv) => NextView::Remove(
                job.deep_view(),
                reason@,
                argv.deep_view(),
            ),
            Next::End(r) => NextView::End(lines_view(*r)),
        }
    }
}

impl JobView {
    /// The build of this install.
    pub open spec fn building(self) -> NextView {
        NextView::Build(self, self.what.args(self.home, self.force))
    }

    /// How an install begins: it is refused, asked about, or built.
    pub open spec fn begun(self, yes: bool, tty: Terminals) -> NextView {
        match cleared_step(
            self.force,
            yes,
            self.format,
            tty,
            self.what.field(),
            self.what.bin(),
            self.shadowed,
            self.what.question(self.shadowed),
        ) {
            Err(e) => NextView::End(Err(e)),
            Ok(StepView::Ask(question)) => NextView::Ask(self, question),
            Ok(StepView::Run) => self.building(),
        }
    }

    /// What an answer leads to.
    pub open spec fn after_answer(self, yes: bool) -> NextView {
        if yes {
            self.building()
        } else {
            NextView::End(Ok(report(self.format, declined(), "not installed"@, Seq::empty())))
        }
    }

    /// What a build leads to.
    pub open spec fn after_build(self, run: CargoRun) -> NextView {
        match cargo_problem(run, "install"@) {
            Some(e) => NextView::End(Err(e)),
            None => NextView::Probe(self, self.what.path()),
        }
    }

    /// What a probe leads to.
    pub open spec fn after_probe(self, probe: Option<ProbeView>) -> NextView {
        match unusable(self.what.package(), probe) {
            Some(reason) => NextView::Remove(
                self,
                reason,
                uninstall_args(self.what.package(), self.home),
            ),
            None => NextView::End(Ok(self.what.success(self.format, self.shadowed, probe))),
        }
    }

    /// What a removal leads to: the install failed, whether or not its traces are gone.
    pub open spec fn after_removal(
        self,
        reason: Seq<char>,
        uninstalled: bool,
        still_there: bool,
    ) -> NextView {
        NextView::End(
            Err(
                invalid_field(
                    self.what.field(),
                    rollback_told(reason, self.what.path(), uninstalled, still_there),
                ),
            ),
        )
    }
}

impl Job {
    fn argv(&self) -> (r: Vec<String>)
        ensures
            r.deep_view() == self.deep_view().what.args(self.home@, self.force),
    {
        match &self.what {
            Candidate::Registry(c) => c.argv(self.home.as_str(), self.force),
            Candidate::Git(i) => i.argv(self.home.as_str(), self.force),
        }
    }

    fn path(&self) -> (r: &str)
        ensures
            r@ == self.deep_view().what.path(),
    {
        match &self.what {
            Candidate::Registry(c) => c.path.as_str(),
            Candidate::Git(i) => i.path.as_str(),
        }
    }

    fn package(&self) -> (r: &str)
        ensures
            r@ == self.deep_view().what.package(),
    {
        match &self.what {
            Candidate::Registry(c) => c.candidate.crate_name.as_str(),
            Candidate::Git(i) => i.package.as_str(),
        }
    }

    /// Goes on with the answer to the question.
    pub fn answered(self, yes: bool) -> (r: Next)
        ensures
            r.deep_view() == self.deep_view().after_answer(yes),
    {
        if yes {
            let argv = self.argv();
            Next::Build(self, argv)
        } else {
            Next::End(Ok(emit_declined(self.format)))
        }
    }

    /// Goes on after the build.
    pub fn built(self, run: &CargoRun) -> (r: Next)
        ensures
            r.deep_view() == self.deep_view().after_build(*run),
    {
        match cargo_outcome(run, "install") {
            Err(e) => Next::End(Err(e)),
            Ok(()) => {
                let path = self.path().to_owned();
                Next::Probe(self, path)
            },
        }
    }

    /// Goes on with what the new binary answered.
    pub fn probed(self, probe: Option<&ProbedInfo>) -> (r: Next)
        ensures
            r.deep_view() == self.deep_view().after_probe(answer_view(probe)),
    {
        let verdict = match &self.what {
            Candidate::Registry(c) => c.built(self.format, borrowed(&self.shadowed), probe),
            Candidate::Git(i) => i.built(self.format, borrowed(&self.shadowed), probe),
        };
        match verdict {
            Built::Done(out) => Next::End(Ok(out)),
            Built::RollBack(reason) => {
                let argv = rollback_argv(self.package(), self.home.as_str());
                Next::Remove(self, reason, argv)
            },
        }
    }

    /// Ends after a removal: did cargo say it is done, and is the file there still?
    pub fn removed(self, reason: &str, uninstalled: bool, still_there: bool) -> (r: Next)
        ensures
            r.deep_view() == self.deep_view().after_removal(reason@, uninstalled, still_there),
    {
        let message = roll_back(reason, self.path(), uninstalled, still_there);
        let field = match &self.what {
            Candidate::Registry(_) => "name",
            Candidate::Git(_) => "--git",
        };
        Next::End(Err(invalid(field, message)))
    }
}

/// Begins an install that passed the gates: it refuses to shadow another copy unless it
/// is forced, and applies the consent rule.
pub fn begin_install(
    what: Candidate,
    shadowed: Option<String>,
    home: String,
    format: OutputFormat,
    args: &PluginInstallArgs,
    tty: Terminals,
) -> (r: Next)
    ensures
        r.deep_view() == (JobView {
            what: what.deep_view(),
            shadowed: shadowed.deep_view(),
            home: home@,
            force: args.force,
            format,
        }).begun(args.yes, tty),
{
    let job = Job { what, shadowed, home, force: args.force, format };
    let step = match &job.what {
        Candidate::Registry(c) => c.next(format, args, borrowed(&job.shadowed), tty),
        Candidate::Git(i) => i.next(format, args, borrowed(&job.shadowed), tty),
    };
    match step {
        Err(e) => Next::End(Err(e)),
        Ok(Step::Ask(question)) => Next::Ask(job, question),
        Ok(Step::Run) => {
            let argv = job.argv();
            Next::Build(job, argv)
        },
    }
}

/// Third-party code is built only on an explicit yes: `--yes` on the command line, or the
/// answer to a question. No later step builds anything.
pub proof fn law_nothing_is_built_without_a_yes(
    job: JobView,
    yes: bool,
    tty: Terminals,
    answer: bool,
    run: CargoRun,
    probe: Option<ProbeView>,
    reason: Seq<char>,
    uninstalled: bool,
    still_there: bool,
)
    ensures
        job.begun(yes, tty) is Build ==> yes,
        job.begun(yes, tty) is Ask ==> job.format == OutputFormat::Human && tty.stdin
            && tty.stderr,
        job.after_answer(answer) is Build <==> answer,
        !(job.after_build(run) is Build),
        !(job.after_probe(probe) is Build),
        !(job.after_removal(reason, uninstalled, still_there) is Build),
{
}

/// Nothing that another copy serves is taken over without `--force`.
pub proof fn law_nothing_is_shadowed_unforced(job: JobView, yes: bool, tty: Terminals)
    ensures
        job.shadowed is Some && !job.force ==> (job.begun(yes, tty) matches NextView::End(r)
            && r is Err),
{
}

/// A plugin that this clove cannot use does not stay, and its install is never a success;
/// one that it can use stays.
pub proof fn law_an_unusable_plugin_does_not_stay(
    job: JobView,
    probe: Option<ProbeView>,
    reason: Seq<char>,
    uninstalled: bool,
    still_there: bool,
)
    ensures
        unusable(job.what.package(), probe) is Some ==> job.after_probe(probe) is Remove,
        unusable(job.what.package(), probe) is None ==> (job.after_probe(probe) matches
            NextView::End(r) && r is Ok),
        job.after_removal(reason, uninstalled, still_there) matches NextView::End(r) && r is Err,
{
}

/// What comes back from outside in the course of an install.
pub struct InstallEvents {
    pub answer: bool,
    pub run: CargoRun,
    pub probe: Option<ProbeView>,
    pub uninstalled: bool,
    pub still_there: bool,
}

/// How many steps an install can still take.
pub open spec fn steps_left(next: NextView) -> nat {
    match next {
        NextView::Ask(..) => 4,
        NextView::Build(..) => 3,
        NextView::Probe(..) => 2,
        NextView::Remove(..) => 1,
        NextView::End(_) => 0,
    }
}

/// Every build of an install from a step on to its end: cargo's arguments, in the order of
/// the builds.
pub open spec fn builds_from(next: NextView, e: InstallEvents) -> Seq<Seq<Seq<char>>>
    decreases steps_left(next),
{
    match next {
        NextView::Ask(job, _) => builds_from(job.after_answer(e.answer), e),
        NextView::Build(job, argv) => seq![argv] + builds_from(job.after_build(e.run), e),
        NextView::Probe(job, _) => builds_from(job.after_probe(e.probe), e),
        NextView::Remove(job, reason, _) => builds_from(
            job.after_removal(reason, e.uninstalled, e.still_there),
            e,
        ),
        NextView::End(_) => Seq::empty(),
    }
}

/// An install from the registry, with all that it is told from outside: what the name
/// resolved to, the crates that depend on `clove-plugin`, what is installed, and which copy
/// would be shadowed.
pub struct RegistryInstall {
    pub args: PluginInstallArgs,
    pub candidate: Result<PluginView, ErrorView>,
    pub dependents: Result<Option<Seq<Seq<char>>>, ErrorView>,
    pub installed: Seq<InstalledView>,
    pub shadowed: Option<Seq<char>>,
    pub home: Seq<char>,
    pub exe_suffix: Seq<char>,
    pub path: Seq<char>,
    pub format: OutputFormat,
    pub tty: Terminals,
}

impl RegistryInstall {
    /// The first step behind the gates: the install ends there, or it is begun.
    pub open spec fn begun(self) -> NextView {
        match (self.candidate, self.dependents) {
            (Err(e), _) => NextView::End(Err(e)),
            (_, Err(e)) => NextView::End(Err(e)),
            (Ok(c), Ok(deps)) => {
                let g = gates_of(c, deps);
                let there = owner(
                    self.installed,
                    gate_subcommand(g, self.exe_suffix),
                    self.exe_suffix,
                );
                if refused(c, deps, self.args.strict, self.args.allow_yanked) is Some {
                    NextView::End(
                        Err(refused(c, deps, self.args.strict, self.args.allow_yanked)->0),
                    )
                } else if there is Some && !self.args.force {
                    NextView::End(
                        Ok(
                            report(
                                self.format,
                                already_there(there->0),
                                there->0.package + " "@ + there->0.version
                                    + " is already installed (--force to reinstall)"@,
                                Seq::empty(),
                            ),
                        ),
                    )
                } else {
                    (JobView {
                        what: CandidateView::Registry {
                            candidate: c,
                            gates: g,
                            bin: c.crate_name,
                            path: self.path,
                        },
                        shadowed: self.shadowed,
                        home: self.home,
                        force: self.args.force,
                        format: self.format,
                    }).begun(self.args.yes, self.tty)
                }
            },
        }
    }
}

/// Over a whole install from the registry, cargo builds at most once. It builds only a
/// candidate that the name resolved to, with the dependents at hand, that the gates let
/// through and that is not wholly yanked unless that is allowed; only if neither an installed
/// copy nor another one is in the way, unless it is forced; and only on a yes. What it builds
/// is the crate's own binary at the version that was shown.
pub proof fn law_an_install_builds_once_and_only_behind_the_gates(
    w: RegistryInstall,
    e: InstallEvents,
)
    ensures
        builds_from(w.begun(), e).len() <= 1,
        builds_from(w.begun(), e).len() == 1 ==> {
            &&& w.candidate is Ok
            &&& w.dependents is Ok
            &&& gates_of(w.candidate->Ok_0, w.dependents->Ok_0).blocked(w.args.strict) is None
            &&& w.candidate->Ok_0.is_yanked() ==> w.args.allow_yanked
            &&& w.args.force || w.shadowed is None
            &&& w.args.force || owner(
                w.installed,
                gate_subcommand(
                    gates_of(w.candidate->Ok_0, w.dependents->Ok_0),
                    w.exe_suffix,
                ),
                w.exe_suffix,
            ) is None
            &&& w.args.yes || (w.format == OutputFormat::Human && w.tty.stdin && w.tty.stderr
                && e.answer)
            &&& builds_from(w.begun(), e)[0] == install_args(
                w.candidate->Ok_0.crate_name,
                w.candidate->Ok_0.shown_version(),
                w.candidate->Ok_0.crate_name,
                w.home,
                w.args.force,
            )
        },
{
    reveal_with_fuel(builds_from, 6);
}

// ---- Updating -----------------------------------------------------------------

/// An update under way.
#[derive(Debug, PartialEq, Eq)]
pub struct UpdateJob {
    /// The package at hand.
    pub current: Upgrade,
    /// Those that come after it.
    pub later: Vec<Upgrade>,
    pub run: UpdateRun,
    pub home: String,
    pub exe_suffix: String,
    pub checked: usize,
    pub skipped: usize,
    pub scope: String,
    pub format: OutputFormat,
}

/// The model of an [`UpdateJob`].
pub struct UpdateView {
    pub current: UpgradeView,
    pub later: Seq<UpgradeView>,
    pub updated: Seq<JsonView>,
    pub warnings: Seq<Seq<char>>,
    pub home: Seq<char>,
    pub exe_suffix: Seq<char>,
    pub checked: int,
    pub skipped: int,
    pub scope: Seq<char>,
    pub format: OutputFormat,
}

impl DeepView for UpdateJob {
    type V = UpdateView;

    open spec fn deep_view(&self) -> UpdateView {
        UpdateView {
            current: self.current.deep_view(),
            later: self.later.deep_view(),
            updated: self.run.updated.deep_view(),
            warnings: self.run.warnings.deep_view(),
            home: self.home@,
            exe_suffix: self.exe_suffix@,
            checked: self.checked as int,
            skipped: self.skipped as int,
            scope: self.scope@,
            format: self.format,
        }
    }
}

/// What an update does next.
#[derive(Debug, PartialEq, Eq)]
pub enum UpdateNext {
    /// Ask this.
    Ask(UpdateJob, String),
    /// Run cargo with these arguments.
    Build(UpdateJob, Vec<String>),
    /// Ask this binary what it provides.
    Probe(UpdateJob, String),
    /// The new version is of no use, for this reason: run cargo with these arguments.
    Remove(UpdateJob, String, Vec<String>),
    /// That was all.
    End(Result<Vec<Out>, CloveError>),
}

/// The model of an [`UpdateNext`]. The file to probe is not part of it.
pub enum UpdateNextView {
    Ask(UpdateView, Seq<char>),
    Build(UpdateView, Seq<Seq<char>>),
    Probe(UpdateView),
    Remove(UpdateView, Seq<char>, Seq<Seq<char>>),
    End(Result<Seq<OutView>, ErrorView>),
}

impl DeepView for UpdateNext {
    type V = UpdateNextView;

    open spec fn deep_view(&self) -> UpdateNextView {
        match self {
            UpdateNext::Ask(job, question) => UpdateNextView::Ask(job.deep_view(), question@),
            UpdateNext::Build(job, argv) => UpdateNextView::Build(
                job.deep_view(),
                argv.deep_view(),
            ),
            UpdateNext::Probe(job, _) => UpdateNextView::Probe(job.deep_view()),
            UpdateNext::Remove(job, reason, argv) => UpdateNextView::Remove(
                job.deep_view(),
                reason@,
                argv.deep_view(),
            ),
            UpdateNext::End(r) => UpdateNextView::End(lines_view(*r)),
        }
    }
}

impl UpdateView {
    /// The build of the package at hand.
    pub open spec fn building(self) -> UpdateNextView {
        UpdateNextView::Build(
            self,
            install_args(
                self.current.package,
                Some(self.current.to),
                self.current.bin,
                self.home,
                true,
            ),
        )
    }

    /// The package at hand is done with: the next one, or the end.
    pub open spec fn going_on(self) -> UpdateNextView {
        if self.later.len() > 0 {
            (UpdateView { current: self.later[0], later: self.later.drop_first(), ..self })
                .building()
        } else {
            UpdateNextView::End(
                Ok(
                    report(
                        self.format,
                        update_data(self.updated, self.checked, self.skipped, self.scope),
                        "updated "@ + text::decimal(self.updated.len()) + " plugin(s)"@,
                        self.warnings,
                    ),
                ),
            )
        }
    }

    /// With one more warning.
    pub open spec fn warned(self, message: Seq<char>) -> UpdateView {
        UpdateView { warnings: self.warnings.push(message), ..self }
    }

    /// What an answer leads to.
    pub open spec fn after_answer(self, yes: bool) -> UpdateNextView {
        if yes {
            self.building()
        } else {
            UpdateNextView::End(
                Ok(
                    report(
                        self.format,
                        obj(
                            seq![
                                ("updated"@, JsonView::Array(Seq::empty())),
                                ("declined"@, JsonView::Bool(true)),
                                ("scope"@, JsonView::Text(self.scope)),
                            ],
                        ),
                        "not updated"@,
                        Seq::empty(),
                    ),
                ),
            )
        }
    }

    /// What is told of a package that cargo failed on.
    pub open spec fn failure_told(self, e: ErrorView) -> Seq<char> {
        self.current.package + " was not updated: "@ + told(e)
    }

    /// What a build leads to. A failure is kept, and the next package gets its turn.
    pub open spec fn after_build(self, run: CargoRun) -> (Seq<OutView>, UpdateNextView) {
        match cargo_problem(run, "install"@) {
            Some(e) => (
                seq![OutView::Note("warning: "@ + self.failure_told(e))],
                self.warned(self.failure_told(e)).going_on(),
            ),
            None => (Seq::empty(), UpdateNextView::Probe(self)),
        }
    }

    /// What a probe leads to.
    pub open spec fn after_probe(self, probe: Option<ProbeView>) -> UpdateNextView {
        match unusable(self.current.package, probe) {
            Some(reason) => UpdateNextView::Remove(
                self,
                reason,
                uninstall_args(self.current.package, self.home),
            ),
            None => (UpdateView {
                updated: self.updated.push(updated_entry(self.current)),
                ..self
            }).going_on(),
        }
    }

    /// What a removal leads to.
    pub open spec fn after_removal(self, message: Seq<char>) -> (Seq<OutView>, UpdateNextView) {
        (seq![OutView::Note("warning: "@ + message)], self.warned(message).going_on())
    }
}

/// The first package that is updated, with nothing done yet.
pub open spec fn update_begun(
    all: Seq<CheckedView>,
    dependents: Option<Seq<Seq<char>>>,
    args: PluginUpdateArgs,
    blank: UpdateView,
) -> UpdateView {
    let ups = upgrades_of(all, dependents, args.strict, args.allow_yanked);
    UpdateView {
        current: ups[0],
        later: ups.drop_first(),
        updated: Seq::empty(),
        warnings: trimmed_all(blocked_of(all, dependents, args.strict, args.allow_yanked)),
        ..blank
    }
}

/// How an update begins, with the lines of the plan: with nothing to do it ends; else it is
/// refused, asked about, or begun with the first package.
pub open spec fn update_start(
    all: Seq<CheckedView>,
    dependents: Option<Seq<Seq<char>>>,
    args: PluginUpdateArgs,
    tty: Terminals,
    blank: UpdateView,
) -> (Seq<OutView>, UpdateNextView) {
    let ups = upgrades_of(all, dependents, args.strict, args.allow_yanked);
    let held = blocked_of(all, dependents, args.strict, args.allow_yanked);
    let job = update_begun(all, dependents, args, blank);
    (
        (if blank.format == OutputFormat::Human {
            plan_notes(all)
        } else {
            Seq::empty()
        }) + plain_notes(held),
        if ups.len() == 0 {
            UpdateNextView::End(
                Ok(
                    report(
                        blank.format,
                        update_data(Seq::empty(), blank.checked, blank.skipped, blank.scope),
                        "everything is up to date"@,
                        trimmed_all(held),
                    ),
                ),
            )
        } else {
            match asked(args.yes, blank.format, tty, "  Update these plugins? [y/N] "@) {
                Err(e) => UpdateNextView::End(Err(e)),
                Ok(StepView::Ask(question)) => UpdateNextView::Ask(job, question),
                Ok(StepView::Run) => job.building(),
            }
        },
    )
}

/// Where an update works and what it reports of itself.
#[derive(Debug, PartialEq, Eq)]
pub struct UpdateFrame {
    pub home: String,
    pub exe_suffix: String,
    /// How many packages the registry was asked about.
    pub checked: usize,
    /// How many it was not.
    pub skipped: usize,
    pub scope: String,
    pub format: OutputFormat,
}

/// The frame as an update that has not begun.
pub open spec fn frame_view(f: UpdateFrame) -> UpdateView {
    UpdateView {
        current: UpgradeView {
            package: Seq::empty(),
            from: Seq::empty(),
            to: Seq::empty(),
            bin: Seq::empty(),
        },
        later: Seq::empty(),
        updated: Seq::empty(),
        warnings: Seq::empty(),
        home: f.home@,
        exe_suffix: f.exe_suffix@,
        checked: f.checked as int,
        skipped: f.skipped as int,
        scope: f.scope@,
        format: f.format,
    }
}

/// Plans an update and begins it.
pub fn begin_update(
    args: &PluginUpdateArgs,
    all: &Vec<Checked>,
    dependents: Option<&Vec<String>>,
    frame: UpdateFrame,
    tty: Terminals,
) -> (r: (Vec<Out>, UpdateNext))
    ensures
        (r.0.deep_view(), r.1.deep_view()) == update_start(
            all.deep_view(),
            names_view(dependents),
            *args,
            tty,
            frame_view(frame),
        ),
{
    let ghost given = all.deep_view();
    let ghost deps = names_view(dependents);
    let ghost ups = upgrades_of(given, deps, args.strict, args.allow_yanked);
    let mut plan = plan_update(args, all, dependents);
    let warnings = plan.warnings();
    let mut upgrades: Vec<Upgrade> = Vec::new();
    std::mem::swap(&mut upgrades, &mut plan.upgrades);
    assert(upgrades.deep_view() == ups);
    assert(ups.len() == upgrades.len());
    let notes = plan.shown(frame.format);
    if upgrades.len() == 0 {
        let out = emit_up_to_date(
            frame.format,
            frame.checked,
            frame.skipped,
            frame.scope.as_str(),
            &warnings,
        );
        return (notes, UpdateNext::End(Ok(out)));
    }
    let ghost first = upgrades@[0].deep_view();
    let current = upgrades.remove(0);
    assert(current.deep_view() == ups[0]);
    assert(upgrades.deep_view() =~= ups.drop_first());
    let job = UpdateJob {
        current,
        later: upgrades,
        run: UpdateRun::start(warnings),
        home: frame.home,
        exe_suffix: frame.exe_suffix,
        checked: frame.checked,
        skipped: frame.skipped,
        scope: frame.scope,
        format: frame.format,
    };
    assert(job.deep_view() == update_begun(given, deps, *args, frame_view(frame)));
    match ask_update(args, job.format, tty) {
        Err(e) => (notes, UpdateNext::End(Err(e))),
        Ok(Step::Ask(question)) => (notes, UpdateNext::Ask(job, question)),
        Ok(Step::Run) => {
            let argv = job.current.argv(job.home.as_str());
            (notes, UpdateNext::Build(job, argv))
        },
    }
}

/// One line on stderr, and what is next.
fn noted(note: Out, next: UpdateNext) -> (r: (Vec<Out>, UpdateNext))
    ensures
        r.0.deep_view() == seq![note.deep_view()],
        r.1 == next,
{
    let ghost view = note.deep_view();
    let out: Vec<Out> = vec![note];
    assert(out.deep_view() =~= seq![view]);
    (out, next)
}

fn unnoted(next: UpdateNext) -> (r: (Vec<Out>, UpdateNext))
    ensures
        r.0.deep_view() == Seq::<OutView>::empty(),
        r.1 == next,
{
    let out: Vec<Out> = Vec::new();
    assert(out.deep_view() =~= Seq::<OutView>::empty());
    (out, next)
}

impl UpdateJob {
    fn go_on(self) -> (r: UpdateNext)
        ensures
            r.deep_view() == self.deep_view().going_on(),
    {
        let ghost view = self.deep_view();
        let mut job = self;
        assert(job.later.deep_view().len() == job.later.len());
        assert(view.updated.len() == self.run.updated.len());
        if job.later.len() == 0 {
            let out = job.run.finish(job.format, job.checked, job.skipped, job.scope.as_str());
            return UpdateNext::End(Ok(out));
        }
        let ghost rest = view.later;
        assert(rest[0] == job.later@[0].deep_view());
        job.current = job.later.remove(0);
        assert(job.later.deep_view() =~= rest.drop_first());
        let argv = job.current.argv(job.home.as_str());
        UpdateNext::Build(job, argv)
    }

    /// Goes on with the answer to the question.
    pub fn answered(self, yes: bool) -> (r: UpdateNext)
        ensures
            r.deep_view() == self.deep_view().after_answer(yes),
    {
        if yes {
            let argv = self.current.argv(self.home.as_str());
            UpdateNext::Build(self, argv)
        } else {
            UpdateNext::End(Ok(emit_update_declined(self.format, self.scope.as_str())))
        }
    }

    /// Goes on after a build. The file to probe is where cargo puts the package's binary.
    pub fn built(self, run: &CargoRun) -> (r: (Vec<Out>, UpdateNext))
        ensures
            (r.0.deep_view(), r.1.deep_view()) == self.deep_view().after_build(*run),
            r.1 matches UpdateNext::Probe(_, file) ==> (path::is_component(
                self.current.bin@ + self.exe_suffix@,
            ) ==> is_binary_path(self.home@, self.current.bin@, self.exe_suffix@, file@)),
    {
        match cargo_outcome(run, "install") {
            Ok(()) => {
                let file = installed_binary_path_with(
                    self.home.as_str(),
                    self.current.bin.as_str(),
                    self.exe_suffix.as_str(),
                );
                unnoted(UpdateNext::Probe(self, file))
            },
            Err(e) => {
                let mut job = self;
                let note = job.run.failed(&job.current, &e);
                noted(note, job.go_on())
            },
        }
    }

    /// Goes on with what the new binary answered.
    pub fn probed(self, probe: Option<&ProbedInfo>) -> (r: UpdateNext)
        ensures
            r.deep_view() == self.deep_view().after_probe(answer_view(probe)),
    {
        let mut job = self;
        match job.run.built(&job.current, probe) {
            Some(reason) => {
                let argv = rollback_argv(job.current.package.as_str(), job.home.as_str());
                UpdateNext::Remove(job, reason, argv)
            },
            None => job.go_on(),
        }
    }

    /// Goes on after a removal: did cargo say it is done, and is the file there still?
    pub fn removed(self, reason: &str, file: &str, uninstalled: bool, still_there: bool) -> (r: (
        Vec<Out>,
        UpdateNext,
    ))
        ensures
            (r.0.deep_view(), r.1.deep_view()) == self.deep_view().after_removal(
                rollback_told(reason@, file@, uninstalled, still_there),
            ),
    {
        let mut job = self;
        let note = job.run.rolled_back(roll_back(reason, file, uninstalled, still_there));
        noted(note, job.go_on())
    }
}

/// The number of packages that an update still has to see to, and of those it has.
pub open spec fn account(v: UpdateView) -> (int, int) {
    (1 + v.later.len() as int, (v.updated.len() + v.warnings.len()) as int)
}

/// Did a step leave the package at hand for the next, with one more entry in its record?
pub open spec fn moved_on(before: UpdateView, next: UpdateNextView) -> bool {
    match next {
        UpdateNextView::Build(after, _) => account(after).0 == account(before).0 - 1
            && account(after).1 == account(before).1 + 1,
        UpdateNextView::End(r) => before.later.len() == 0 && r is Ok,
        _ => false,
    }
}

/// One package that fails takes nothing from the others: each is either recorded as updated
/// or warned of, and then the next one gets its turn; the update ends after the last.
pub proof fn law_every_package_gets_its_turn(
    v: UpdateView,
    run: CargoRun,
    probe: Option<ProbeView>,
    message: Seq<char>,
)
    ensures
        cargo_problem(run, "install"@) is Some ==> moved_on(v, v.after_build(run).1),
        cargo_problem(run, "install"@) is None ==> v.after_build(run).1
            == UpdateNextView::Probe(v),
        unusable(v.current.package, probe) is None ==> moved_on(v, v.after_probe(probe)),
        unusable(v.current.package, probe) is Some ==> v.after_probe(probe) is Remove,
        moved_on(v, v.after_removal(message).1),
{
}

/// An update, too, builds nothing without a yes.
pub proof fn law_nothing_is_updated_without_a_yes(
    all: Seq<CheckedView>,
    dependents: Option<Seq<Seq<char>>>,
    args: PluginUpdateArgs,
    tty: Terminals,
    blank: UpdateView,
    v: UpdateView,
    answer: bool,
)
    ensures
        update_start(all, dependents, args, tty, blank).1 is Build ==> args.yes,
        v.after_answer(answer) is Build <==> answer,
{
}

/// What comes back from outside in the course of an update, for each package.
pub struct UpdateEvents {
    pub answer: bool,
    pub run: spec_fn(UpgradeView) -> CargoRun,
    pub probe: spec_fn(UpgradeView) -> Option<ProbeView>,
    /// What is said of a removal.
    pub removal: spec_fn(UpgradeView) -> Seq<char>,
}

/// How many steps an update can still take.
pub open spec fn update_steps_left(next: UpdateNextView) -> nat {
    match next {
        UpdateNextView::Ask(v, _) => 4 * v.later.len() + 4,
        UpdateNextView::Build(v, _) => 4 * v.later.len() + 3,
        UpdateNextView::Probe(v) => 4 * v.later.len() + 2,
        UpdateNextView::Remove(v, _, _) => 4 * v.later.len() + 1,
        UpdateNextView::End(_) => 0,
    }
}

/// Every build of an update from a step on to its end: the package and cargo's arguments.
pub open spec fn update_builds_from(next: UpdateNextView, e: UpdateEvents) -> Seq<
    (UpgradeView, Seq<Seq<char>>),
>
    decreases update_steps_left(next),
{
    match next {
        UpdateNextView::Ask(v, _) => update_builds_from(v.after_answer(e.answer), e),
        UpdateNextView::Build(v, argv) => seq![(v.current, argv)] + update_builds_from(
            v.after_build((e.run)(v.current)).1,
            e,
        ),
        UpdateNextView::Probe(v) => update_builds_from(v.after_probe((e.probe)(v.current)), e),
        UpdateNextView::Remove(v, _, _) => update_builds_from(
            v.after_removal((e.removal)(v.current)).1,
            e,
        ),
        UpdateNextView::End(_) => Seq::empty(),
    }
}

/// The build of a package.
pub open spec fn update_build(u: UpgradeView, home: Seq<char>) -> (UpgradeView, Seq<Seq<char>>) {
    (u, install_args(u.package, Some(u.to), u.bin, home, true))
}

/// The builds of some packages.
pub open spec fn update_builds(ups: Seq<UpgradeView>, home: Seq<char>) -> Seq<
    (UpgradeView, Seq<Seq<char>>),
> {
    Seq::new(ups.len(), |i: int| update_build(ups[i], home))
}

proof fn lemma_building_builds_all(v: UpdateView, e: UpdateEvents)
    ensures
        update_builds_from(v.building(), e) == update_builds(
            seq![v.current] + v.later,
            v.home,
        ),
    decreases v.later.len(), 1int,
{
    let run = (e.run)(v.current);
    let probe = (e.probe)(v.current);
    let after = v.after_build(run).1;
    let rest = update_builds(v.later, v.home);
    match cargo_problem(run, "install"@) {
        Some(p) => {
            lemma_rest(v.warned(v.failure_told(p)), e);
        },
        None => {
            assert(after == UpdateNextView::Probe(v));
            match unusable(v.current.package, probe) {
                Some(_) => {
                    lemma_rest(v.warned((e.removal)(v.current)), e);
                    assert(update_builds_from(v.after_probe(probe), e) == rest);
                },
                None => {
                    lemma_rest(
                        UpdateView { updated: v.updated.push(updated_entry(v.current)), ..v },
                        e,
                    );
                },
            }
            assert(update_builds_from(after, e) == update_builds_from(v.after_probe(probe), e));
        },
    }
    assert(update_builds_from(after, e) == rest);
    assert(seq![update_build(v.current, v.home)] + rest =~= update_builds(
        seq![v.current] + v.later,
        v.home,
    ));
}

proof fn lemma_rest(v: UpdateView, e: UpdateEvents)
    ensures
        update_builds_from(v.going_on(), e) == update_builds(v.later, v.home),
    decreases v.later.len(), 0int,
{
    if v.later.len() > 0 {
        let w = UpdateView { current: v.later[0], later: v.later.drop_first(), ..v };
        lemma_building_builds_all(w, e);
        assert(seq![v.later[0]] + v.later.drop_first() =~= v.later);
    } else {
        assert(update_builds_from(v.going_on(), e) =~= update_builds(v.later, v.home));
    }
}

proof fn lemma_upgrades_come_from_packages(
    all: Seq<CheckedView>,
    dependents: Option<Seq<Seq<char>>>,
    strict: bool,
    allow_yanked: bool,
)
    ensures
        forall|i: int|
            0 <= i < upgrades_of(all, dependents, strict, allow_yanked).len() ==> exists|k: int|
                0 <= k < all.len() && fate(#[trigger] all[k], dependents, strict, allow_yanked)
                    == Fate::Upgrade(
                    #[trigger] upgrades_of(all, dependents, strict, allow_yanked)[i],
                ),
    decreases all.len(),
{
    if all.len() > 0 {
        let init = all.drop_last();
        lemma_upgrades_come_from_packages(init, dependents, strict, allow_yanked);
        let before = upgrades_of(init, dependents, strict, allow_yanked);
        let ups = upgrades_of(all, dependents, strict, allow_yanked);
        assert forall|i: int| 0 <= i < ups.len() implies exists|k: int|
            0 <= k < all.len() && fate(#[trigger] all[k], dependents, strict, allow_yanked)
                == Fate::Upgrade(#[trigger] ups[i]) by {
            if i < before.len() {
                assert(ups[i] == before[i]);
                let k = choose|k: int|
                    0 <= k < init.len() && fate(
                        #[trigger] init[k],
                        dependents,
                        strict,
                        allow_yanked,
                    ) == Fate::Upgrade(before[i]);
                assert(all[k] == init[k]);
            } else {
                assert(all[all.len() - 1] == all.last());
            }
        }
    }
}

/// An update, with all that it is told from outside: what the registry has of the packages,
/// and the crates that depend on `clove-plugin`.
pub struct UpdateWorld {
    pub args: PluginUpdateArgs,
    pub checked: Result<Seq<CheckedView>, ErrorView>,
    pub dependents: Result<Option<Seq<Seq<char>>>, ErrorView>,
    pub tty: Terminals,
    pub blank: UpdateView,
}

impl UpdateWorld {
    /// The first step of the update.
    pub open spec fn begun(self) -> UpdateNextView {
        match (self.checked, self.dependents) {
            (Err(e), _) => UpdateNextView::End(Err(e)),
            (_, Err(e)) => UpdateNextView::End(Err(e)),
            (Ok(all), Ok(deps)) => update_start(all, deps, self.args, self.tty, self.blank).1,
        }
    }

    /// Was there a yes: on the command line, or as the answer to the question?
    pub open spec fn agreed(self, answer: bool) -> bool {
        self.args.yes || (self.blank.format == OutputFormat::Human && self.tty.stdin
            && self.tty.stderr && answer)
    }
}

/// May this package be built: is it a registry install, of which the registry has a strictly
/// greater stable version that passes the gates, and is exactly that version built?
pub open spec fn may_be_built(
    c: CheckedView,
    dependents: Option<Seq<Seq<char>>>,
    args: PluginUpdateArgs,
    home: Seq<char>,
    build: (UpgradeView, Seq<Seq<char>>),
) -> bool {
    &&& c.installed.source is Registry
    &&& c.installed.package == build.0.package
    &&& c.latest is Some
    &&& c.latest->0.latest == Some(build.0.to)
    &&& semver_greater(build.0.to, c.installed.version)
    &&& gates_of(c.latest->0, dependents).blocked(args.strict) is None
    &&& c.latest->0.is_yanked() ==> args.allow_yanked
    &&& build.0.bin == c.latest->0.crate_name
    &&& build.1 == install_args(build.0.package, Some(build.0.to), build.0.bin, home, true)
}

/// Over a whole update, cargo builds only what may be built, and only on a yes; a failure of
/// the registry ends it with that failure and nothing built. With a yes every package that is
/// to be updated is built, in its turn, whatever comes of the others.
pub proof fn law_an_update_builds_what_passed_and_all_of_it(w: UpdateWorld, e: UpdateEvents)
    ensures
        w.checked is Err || w.dependents is Err ==> (w.begun() matches UpdateNextView::End(r)
            && r is Err) && update_builds_from(w.begun(), e).len() == 0,
        update_builds_from(w.begun(), e).len() > 0 ==> w.agreed(e.answer),
        w.checked is Ok && w.dependents is Ok ==> {
            let ups = upgrades_of(
                w.checked->Ok_0,
                w.dependents->Ok_0,
                w.args.strict,
                w.args.allow_yanked,
            );
            let builds = update_builds_from(w.begun(), e);
            &&& w.agreed(e.answer) ==> builds == update_builds(ups, w.blank.home)
            &&& forall|i: int|
                0 <= i < builds.len() ==> exists|k: int|
                    0 <= k < w.checked->Ok_0.len() && may_be_built(
                        #[trigger] w.checked->Ok_0[k],
                        w.dependents->Ok_0,
                        w.args,
                        w.blank.home,
                        #[trigger] builds[i],
                    )
        },
{
    if w.checked is Ok && w.dependents is Ok {
        let all = w.checked->Ok_0;
        let deps = w.dependents->Ok_0;
        let ups = upgrades_of(all, deps, w.args.strict, w.args.allow_yanked);
        let builds = update_builds_from(w.begun(), e);
        let job = update_begun(all, deps, w.args, w.blank);
        if ups.len() > 0 {
            lemma_building_builds_all(job, e);
            assert(seq![ups[0]] + ups.drop_first() =~= ups);
        }
        assert(w.agreed(e.answer) ==> builds =~= update_builds(ups, w.blank.home));
        assert(!w.agreed(e.answer) ==> builds.len() == 0) by {
            reveal_with_fuel(update_builds_from, 3);
        }
        lemma_upgrades_come_from_packages(all, deps, w.args.strict, w.args.allow_yanked);
        assert forall|i: int| 0 <= i < builds.len() implies exists|k: int|
            0 <= k < all.len() && may_be_built(
                #[trigger] all[k],
                deps,
                w.args,
                w.blank.home,
                #[trigger] builds[i],
            ) by {
            assert(builds[i] == update_build(ups[i], w.blank.home));
            let k = choose|k: int|
                0 <= k < all.len() && fate(
                    #[trigger] all[k],
                    deps,
                    w.args.strict,
                    w.args.allow_yanked,
                ) == Fate::Upgrade(ups[i]);
            law_updates_pass_the_gates(all[k], deps, w.args.strict, w.args.allow_yanked);
            law_updates_only_move_forward(all[k].installed, all[k].latest);
            assert(may_be_built(all[k], deps, w.args, w.blank.home, builds[i]));
        }
    }
}

// ---- What each step hands on ----------------------------------------------------

/// What was built is probed where it was put, and a failed build ends the install with its
/// error; what is removed is the package that was built, from the same root.
pub proof fn law_what_was_built_is_probed_and_removed(
    job: JobView,
    run: CargoRun,
    p: ProbeView,
    yes: bool,
)
    ensures
        run is Success ==> job.after_build(run) == NextView::Probe(job, job.what.path()),
        !(run is Success) ==> (job.after_build(run) matches NextView::End(Err(e)) && cargo_problem(
            run,
            "install"@,
        ) == Some(e)),
        p.min_clove_plugin_api > crate::plugin::PLUGIN_API_VERSION ==> (job.after_probe(Some(p))
            matches NextView::Remove(j, _, argv) && j == job && argv == uninstall_args(
            job.what.package(),
            job.home,
        )),
        job.after_answer(true) == NextView::Build(job, job.what.args(job.home, job.force)),
        job.after_answer(false) matches NextView::End(Ok(_)),
{
}

/// An install from a repository that ended well names the package, its binary, the repository
/// and the commit, and where the binary is; one from the registry names its version.
pub proof fn law_a_finished_install_tells_what_was_installed(
    url: Seq<char>,
    package: Seq<char>,
    bin: Seq<char>,
    commit: Seq<char>,
    path: Seq<char>,
    pinned: bool,
    candidate: PluginView,
    gates: GatesView,
    shadowed: Option<Seq<char>>,
    probe: Option<ProbeView>,
)
    ensures
        (CandidateView::Git { url, package, bin, commit, path, pinned }).success(
            OutputFormat::Json,
            shadowed,
            probe,
        )[0] matches OutView::Json(v) && (v.member("data"@) matches Some(d) && d.member(
            "package"@,
        ) == Some(JsonView::Text(package)) && d.member("binary"@) == Some(JsonView::Text(bin))
            && d.member("source"@) == Some(JsonView::Text(url)) && d.member("commit"@) == Some(
            JsonView::Text(commit),
        ) && d.member("path"@) == Some(JsonView::Text(path)) && d.member("installed"@) == Some(
            JsonView::Bool(true),
        )),
        (CandidateView::Registry { candidate, gates, bin, path }).success(
            OutputFormat::Json,
            shadowed,
            probe,
        )[0] matches OutView::Json(v) && v.member("data"@) == Some(
            installed_data(candidate.crate_name, gates.version, bin, path),
        ) && (v.member("_meta"@) matches Some(m) && m.member("warnings"@) == Some(
            crate::json::texts(
                install_warnings(
                    candidate.crate_name,
                    bin,
                    probe,
                    shadowed,
                    gates.depends_on_plugin,
                ),
            ),
        )),
        (CandidateView::Git { url, package, bin, commit, path, pinned }).success(
            OutputFormat::Human,
            shadowed,
            probe,
        ).last() == OutView::Text("installed "@ + package + " from "@ + url + " as "@ + bin),
        (CandidateView::Registry { candidate, gates, bin, path }).success(
            OutputFormat::Human,
            shadowed,
            probe,
        ).last() == OutView::Text(installed_told(candidate.crate_name, gates.version, bin)),
{
    let data = obj(
        seq![
            ("installed"@, JsonView::Bool(true)),
            ("package"@, JsonView::Text(package)),
            ("binary"@, JsonView::Text(bin)),
            ("source"@, JsonView::Text(url)),
            ("commit"@, JsonView::Text(commit)),
            ("path"@, JsonView::Text(path)),
        ],
    );
    reveal_strlit("installed");
    reveal_strlit("package");
    reveal_strlit("binary");
    reveal_strlit("source");
    reveal_strlit("commit");
    reveal_strlit("path");
    let p = seq![
        ("installed"@, JsonView::Bool(true)),
        ("package"@, JsonView::Text(package)),
        ("binary"@, JsonView::Text(bin)),
        ("source"@, JsonView::Text(url)),
        ("commit"@, JsonView::Text(commit)),
        ("path"@, JsonView::Text(path)),
    ];
    assert(data == obj(p));
    assert(p[0].0 == "installed"@ && p[1].0 == "package"@ && p[2].0 == "binary"@ && p[3].0 == "source"@ && p[4].0 == "commit"@ && p[5].0 == "path"@);
    assert("binary"@[0] != "source"@[0]);
    assert("binary"@[0] != "commit"@[0]);
    assert("source"@[0] != "commit"@[0]);
    assert forall|i: int, j: int| 0 <= i < j < p.len() implies (#[trigger] p[i]).0 != (
    #[trigger] p[j]).0 by {
        assert(i == 0 || i == 1 || i == 2 || i == 3 || i == 4);
        assert(j == 1 || j == 2 || j == 3 || j == 4 || j == 5);
    }
    law_distinct_pairs_are_members(p);

    let told = "installed "@ + package + " from "@ + url + " as "@ + bin;
    let warned = git_warnings(url, pinned, bin, shadowed);
    law_a_report_carries_its_data(data, told, warned, 0);
    law_a_report_carries_its_data(
        installed_data(candidate.crate_name, gates.version, bin, path),
        installed_told(candidate.crate_name, gates.version, bin),
        install_warnings(
            candidate.crate_name,
            bin,
            probe,
            shadowed,
            gates.depends_on_plugin,
        ),
        0,
    );
}

/// Each candidate is called by its own name, file and origin.
pub proof fn law_a_candidate_is_what_was_found(
    url: Seq<char>,
    package: Seq<char>,
    bin: Seq<char>,
    commit: Seq<char>,
    path: Seq<char>,
    pinned: bool,
    candidate: PluginView,
    gates: GatesView,
    home: Seq<char>,
    force: bool,
)
    ensures
        ({
            let g = CandidateView::Git { url, package, bin, commit, path, pinned };
            &&& g.package() == package && g.bin() == bin && g.path() == path
            &&& g.field() == "--git"@
            &&& g.args(home, force) == git_install_args(
                url,
                Some(GitRefView::Rev(commit)),
                package,
                bin,
                home,
                force,
            )
        }),
        ({
            let r = CandidateView::Registry { candidate, gates, bin, path };
            &&& r.package() == candidate.crate_name && r.bin() == bin && r.path() == path
            &&& r.field() == "name"@
            &&& r.args(home, force) == install_args(
                candidate.crate_name,
                gates.version,
                bin,
                home,
                force,
            )
        }),
{
}

/// An update that worked is recorded as the package's, a failure is warned of under its name,
/// and the next package is built with everything else kept.
pub proof fn law_each_update_is_recorded_as_its_own(
    v: UpdateView,
    run: CargoRun,
    probe: Option<ProbeView>,
    message: Seq<char>,
)
    requires
        v.later.len() > 0,
    ensures
        unusable(v.current.package, probe) is None ==> (v.after_probe(probe) matches
            UpdateNextView::Build(n, argv) && n.current == v.later[0] && n.later
            == v.later.drop_first() && n.updated == v.updated.push(updated_entry(v.current))
            && n.warnings == v.warnings && n.home == v.home && argv == install_args(
            v.later[0].package,
            Some(v.later[0].to),
            v.later[0].bin,
            v.home,
            true,
        )),
        unusable(v.current.package, probe) is Some ==> (v.after_probe(probe) matches
            UpdateNextView::Remove(n, _, argv) && n == v && argv == uninstall_args(
            v.current.package,
            v.home,
        )),
        cargo_problem(run, "install"@) matches Some(e) ==> (v.after_build(run).1 matches
            UpdateNextView::Build(n, _) && n.current == v.later[0] && n.updated == v.updated
            && n.warnings.len() == v.warnings.len() + 1 && text::begins(
            n.warnings.last(),
            v.current.package,
        ) && v.after_build(run).0 == seq![OutView::Note("warning: "@ + n.warnings.last())]),
        v.after_removal(message).1 matches UpdateNextView::Build(n, _) && n.updated == v.updated
            && n.warnings == v.warnings.push(message),
        v.after_removal(message).0 == seq![OutView::Note("warning: "@ + message)],
{
    if let Some(e) = cargo_problem(run, "install"@) {
        let s = v.failure_told(e);
        assert(s.take(v.current.package.len() as int) =~= v.current.package);
    }
}

/// When the last package has had its turn, the report lists what was updated and counts it.
pub proof fn law_an_update_ends_with_its_report(v: UpdateView, probe: Option<ProbeView>)
    requires
        v.later.len() == 0,
        unusable(v.current.package, probe) is None,
    ensures
        v.after_probe(probe) == UpdateNextView::End(
            Ok(
                report(
                    v.format,
                    update_data(
                        v.updated.push(updated_entry(v.current)),
                        v.checked,
                        v.skipped,
                        v.scope,
                    ),
                    "updated "@ + text::decimal(v.updated.len() + 1) + " plugin(s)"@,
                    v.warnings,
                ),
            ),
        ),
{
}

} // verus!
