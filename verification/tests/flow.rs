//! Installing, removing and updating plugins, from the request to what is printed.

use clove::cli::{PluginInstallArgs, PluginUpdateArgs};
use clove::cmd::plugin::{fetch_uncached, probe_by_name, Discovery};
use clove::cmd::plugin_flow::{
    begin_install, begin_update, Candidate, Next, UpdateFrame, UpdateNext,
};
use clove::cmd::plugin_install::{
    after_uninstall, binary_paths, cargo_outcome, check_targets, count_targets, dependents,
    find_installed, incompatible_reason, look_up, plan_update, resolve_candidate, roll_back, run_install, shadowed_binary,
    start_update,
    uninstall_target, update_scope, update_targets, vet, vet_git, CargoRun, Checked, Inspected,
    Origin, Terminals, UpdateStart, Vetted,
};
use clove::error::CloveError;
use clove::json::Json;
use clove::output::{Out, OutputFormat};
use clove::plugin::{parse_probe_json, ProbedInfo};
use clove::registry::crates_io::CratesIo;
use clove::registry::git_source::{head_call, inspection, GitPlugin, GitRef, GitStep};
use clove::registry::provenance::{Installed, Source};
use clove::registry::{Fetch, FetchError, RegistryPlugin};
use clove::version::Version;

const ROOT: &str = "https://registry.test/api/v1";

/// A registry that publishes some crates, each with a binary of its own name, and that
/// fails on the addresses that hold a given word.
struct FakeRegistry {
    published: Vec<String>,
    broken: Option<String>,
}

impl Fetch for FakeRegistry {
    fn get(&self, url: &str) -> Result<Option<String>, FetchError> {
        if let Some(word) = &self.broken {
            if url.contains(word.as_str()) {
                return Err(FetchError::Transport("down".to_string()));
            }
        }
        if let Some(page) = url.strip_prefix(ROOT).and_then(|u| u.strip_prefix("/crates/clove-plugin/")) {
            if page != "reverse_dependencies?per_page=100&page=1" {
                return Ok(None);
            }
            let rows: Vec<String> = (0..self.published.len())
                .map(|i| format!(r#"{{"version_id":{},"kind":"normal"}}"#, i))
                .collect();
            let versions: Vec<String> = self
                .published
                .iter()
                .enumerate()
                .map(|(i, name)| {
                    format!(
                        r#"{{"id":{},"crate":"{}","num":"1.0.0","bin_names":["{}"],
                            "yanked":false,"downloads":1}}"#,
                        i, name, name
                    )
                })
                .collect();
            return Ok(Some(format!(
                r#"{{"dependencies":[{}],"versions":[{}],"meta":{{"total":{}}}}}"#,
                rows.join(","),
                versions.join(","),
                self.published.len()
            )));
        }
        let name = url.strip_prefix(ROOT).and_then(|u| u.strip_prefix("/crates/")).unwrap_or("");
        if !self.published.iter().any(|p| p == name) {
            return Ok(None);
        }
        Ok(Some(format!(
            r#"{{"crate":{{"name":"{}","description":"d","repository":null,"downloads":5}},
                "versions":[{{"id":1,"crate":"{}","num":"1.0.0","bin_names":["{}"],
                "yanked":false,"downloads":5}}]}}"#,
            name, name, name
        )))
    }
}

fn registry(published: &[&str]) -> FakeRegistry {
    FakeRegistry { published: words(published), broken: None }
}

fn words(items: &[&str]) -> Vec<String> {
    items.iter().map(|s| s.to_string()).collect()
}

fn install_args() -> PluginInstallArgs {
    PluginInstallArgs {
        name: Some("gitlab".to_string()),
        git: None,
        tag: None,
        rev: None,
        branch: None,
        package: None,
        yes: true,
        force: false,
        strict: false,
        allow_yanked: false,
    }
}

fn update_args() -> PluginUpdateArgs {
    PluginUpdateArgs { name: None, all: false, yes: true, strict: false, allow_yanked: false }
}

fn plugin(name: &str, at: &str) -> RegistryPlugin {
    RegistryPlugin {
        crate_name: name.to_string(),
        latest: Version::parse(at),
        latest_prerelease: None,
        latest_yanked: None,
        description: None,
        repository: None,
        bin_names: words(&[name]),
        published_by: None,
        downloads: 0,
    }
}

fn installed(name: &str, at: &str) -> Installed {
    Installed {
        package: name.to_string(),
        version: at.to_string(),
        source: Source::Registry,
        bins: words(&[name]),
    }
}

const TTY: Terminals = Terminals { stdin: true, stderr: true };
const PIPE: Terminals = Terminals { stdin: false, stderr: false };

fn probe(min: u32) -> ProbedInfo {
    let text = format!(
        r#"{{"version":"1.0.0","about":"","provides":[],"clove_plugin_api":1,
            "min_clove_plugin_api":{},"max_clove_plugin_api":9,"max_schema":1}}"#,
        min
    );
    parse_probe_json(&text).unwrap()
}

fn git_candidate() -> Candidate {
    Candidate::Git(Inspected {
        url: "https://example.test/p".to_string(),
        package: "clove-sync-x".to_string(),
        bin: "clove-sync-x".to_string(),
        commit: "c".repeat(40),
        path: "/h/bin/clove-sync-x".to_string(),
        pinned: true,
    })
}

fn data(out: &[Out]) -> Json {
    let envelope = Json::parse(&out.last().unwrap().line()).unwrap();
    Json::parse(&envelope.get("data").unwrap().to_text()).unwrap()
}

fn reason_of(e: CloveError) -> String {
    match e {
        CloveError::InvalidField { reason, .. } => reason,
        CloveError::Registry { message } => message,
        other => other.to_string(),
    }
}

// ---- Resolving ----------------------------------------------------------------

#[test]
fn a_bare_name_resolves_to_the_one_crate_that_exists() {
    let fetch = registry(&["clove-sync-gitlab"]);
    let client = CratesIo::with_root(&fetch, ROOT);
    assert_eq!(resolve_candidate(&client, "gitlab").unwrap().crate_name, "clove-sync-gitlab");
    let none = reason_of(resolve_candidate(&client, "nothing").unwrap_err());
    assert!(none.contains("no plugin named `nothing` is published"));
    assert!(resolve_candidate(&client, "../x").is_err());
    let both = registry(&["clove-sync-gitlab", "clove-import-gitlab"]);
    let client = CratesIo::with_root(&both, ROOT);
    assert!(reason_of(resolve_candidate(&client, "gitlab").unwrap_err()).contains("ambiguous"));
}

#[test]
fn a_registry_that_is_down_is_not_an_empty_one() {
    let mut fetch = registry(&["clove-sync-gitlab"]);
    fetch.broken = Some("clove-import-gitlab".to_string());
    let client = CratesIo::with_root(&fetch, ROOT);
    let told = reason_of(resolve_candidate(&client, "gitlab").unwrap_err());
    assert_eq!(told, "could not reach crates.io: down");
    assert!(probe_by_name(&client, "gitlab", "").is_err());
    fetch.broken = Some("reverse_dependencies".to_string());
    let client = CratesIo::with_root(&fetch, ROOT);
    assert!(dependents(&client).is_err());
    assert!(matches!(fetch_uncached(&client), Discovery::Failed(m)
        if m == "could not reach crates.io: down"));
    fetch.broken = Some("clove-sync-gitlab".to_string());
    let client = CratesIo::with_root(&fetch, ROOT);
    assert!(look_up(&client, &installed("clove-sync-gitlab", "0.9.0")).is_err());
}

#[test]
fn the_dependents_are_read_from_the_registry() {
    let fetch = registry(&["clove-sync-b", "clove-sync-a"]);
    let client = CratesIo::with_root(&fetch, ROOT);
    assert_eq!(dependents(&client), Ok(Some(words(&["clove-sync-a", "clove-sync-b"]))));
    let found = probe_by_name(&client, "a", "").unwrap();
    assert_eq!(found.len(), 1);
    assert_eq!(found[0].crate_name, "clove-sync-a");
    assert!(probe_by_name(&client, "no name", "").unwrap().is_empty());
    assert!(matches!(fetch_uncached(&client), Discovery::Available(Some(v)) if v.len() == 2));
}

// ---- Installing ---------------------------------------------------------------

#[test]
fn the_repository_wins_over_the_name() {
    assert_eq!(run_install(&install_args()), Ok(Origin::Registry("gitlab".to_string())));
    let git = PluginInstallArgs { git: Some("u".to_string()), ..install_args() };
    assert_eq!(run_install(&git), Ok(Origin::Git("u".to_string())));
    let none = PluginInstallArgs { name: None, ..install_args() };
    assert!(run_install(&none).is_err());
}

fn vetted(args: &PluginInstallArgs, there: &Vec<Installed>) -> Result<Vetted, CloveError> {
    let known = words(&["clove-sync-gitlab"]);
    let c = plugin("clove-sync-gitlab", "1.0.0");
    vet(OutputFormat::Json, args, c, Some(&known), there, "/h", "")
}

#[test]
fn an_install_is_vetted_before_anything_runs() {
    match vetted(&install_args(), &vec![]).unwrap() {
        Vetted::Cleared(ok) => {
            assert_eq!(ok.bin, "clove-sync-gitlab");
            assert_eq!(ok.path, "/h/bin/clove-sync-gitlab");
        }
        Vetted::AlreadyInstalled(_) => panic!("nothing is installed"),
    }
    let there = vec![installed("clove-sync-gitlab", "0.9.0")];
    match vetted(&install_args(), &there).unwrap() {
        Vetted::AlreadyInstalled(out) => {
            assert_eq!(data(&out).get("already_installed"), Some(&Json::Bool(true)));
        }
        Vetted::Cleared(_) => panic!("it is there"),
    }
    let force = PluginInstallArgs { force: true, ..install_args() };
    assert!(matches!(vetted(&force, &there), Ok(Vetted::Cleared(_))));
    let stranger = vet(
        OutputFormat::Json,
        &install_args(),
        plugin("clove-sync-evil", "1.0.0"),
        Some(&words(&["clove-sync-gitlab"])),
        &vec![],
        "/h",
        "",
    );
    assert!(stranger.is_err());
}

#[test]
fn an_install_asks_builds_and_probes() {
    let args = PluginInstallArgs { yes: false, ..install_args() };
    let cleared = match vetted(&args, &vec![]).unwrap() {
        Vetted::Cleared(ok) => ok,
        Vetted::AlreadyInstalled(_) => panic!("nothing is installed"),
    };
    let what = Candidate::Registry(cleared);
    let start = begin_install(what, None, "/h".to_string(), OutputFormat::Human, &args, TTY);
    let job = match start {
        Next::Ask(job, question) => {
            assert!(question.contains("clove-sync-gitlab"));
            job
        }
        other => panic!("{:?}", other),
    };
    let job = match job.answered(true) {
        Next::Build(job, argv) => {
            assert_eq!(argv[0], "install");
            assert!(argv.contains(&"clove-sync-gitlab".to_string()));
            job
        }
        other => panic!("{:?}", other),
    };
    let job = match job.built(&CargoRun::Success) {
        Next::Probe(job, path) => {
            assert_eq!(path, "/h/bin/clove-sync-gitlab");
            job
        }
        other => panic!("{:?}", other),
    };
    match job.probed(Some(&probe(1))) {
        Next::End(Ok(out)) => {
            assert_eq!(out.last().unwrap().line(), "installed clove-sync-gitlab 1.0.0 as clove-sync-gitlab");
        }
        other => panic!("{:?}", other),
    }
}

#[test]
fn a_no_ends_an_install_and_a_pipe_refuses_it() {
    let args = PluginInstallArgs { yes: false, ..install_args() };
    let begin = |format, tty| begin_install(git_candidate(), None, "/h".to_string(), format, &args, tty);
    match begin(OutputFormat::Human, TTY) {
        Next::Ask(job, _) => match job.answered(false) {
            Next::End(Ok(out)) => assert_eq!(out[0].line(), "not installed"),
            other => panic!("{:?}", other),
        },
        other => panic!("{:?}", other),
    }
    assert!(matches!(begin(OutputFormat::Human, PIPE), Next::End(Err(_))));
    assert!(matches!(begin(OutputFormat::Json, TTY), Next::End(Err(_))));
}

#[test]
fn a_shadowing_install_needs_force() {
    let other = || Some("/usr/bin/clove-sync-x".to_string());
    let begin = |args: &PluginInstallArgs| {
        begin_install(git_candidate(), other(), "/h".to_string(), OutputFormat::Human, args, TTY)
    };
    match begin(&install_args()) {
        Next::End(Err(e)) => assert!(reason_of(e).contains("would shadow")),
        other => panic!("{:?}", other),
    }
    let force = PluginInstallArgs { force: true, ..install_args() };
    assert!(matches!(begin(&force), Next::Build(_, argv) if argv.contains(&"--rev".to_string())));
    assert_eq!(
        shadowed_binary("clove-sync-x", Some("/usr/bin/clove-sync-x"), "/h/bin/clove-sync-x", ""),
        Some("/usr/bin/clove-sync-x".to_string())
    );
    assert_eq!(
        shadowed_binary("clove-sync-x", Some("/h/bin/clove-sync-x"), "/h/bin/clove-sync-x", ""),
        None
    );
}

#[test]
fn an_unusable_plugin_is_removed_again() {
    let start = begin_install(
        git_candidate(),
        None,
        "/h".to_string(),
        OutputFormat::Human,
        &install_args(),
        PIPE,
    );
    let job = match start {
        Next::Build(job, _) => job,
        other => panic!("{:?}", other),
    };
    let job = match job.built(&CargoRun::Success) {
        Next::Probe(job, _) => job,
        other => panic!("{:?}", other),
    };
    match job.probed(Some(&probe(7))) {
        Next::Remove(job, reason, argv) => {
            assert!(reason.contains("needs a newer clove (it requires plugin API 7"));
            assert_eq!(argv, words(&["uninstall", "--root", "/h", "--", "clove-sync-x"]));
            match job.removed(&reason, true, true) {
                Next::End(Err(e)) => assert!(reason_of(e).contains("FAILED — `/h/bin/clove-sync-x`")),
                other => panic!("{:?}", other),
            }
        }
        other => panic!("{:?}", other),
    }
}

#[test]
fn a_failed_build_ends_an_install() {
    let start = begin_install(
        git_candidate(),
        None,
        "/h".to_string(),
        OutputFormat::Human,
        &install_args(),
        PIPE,
    );
    match start {
        Next::Build(job, _) => {
            assert!(matches!(job.built(&CargoRun::Failed(Some(101))), Next::End(Err(_))));
        }
        other => panic!("{:?}", other),
    }
    assert_eq!(cargo_outcome(&CargoRun::Success, "install"), Ok(()));
    assert!(cargo_outcome(&CargoRun::Missing, "install").is_err());
    let not = cargo_outcome(&CargoRun::NotStarted("denied".to_string()), "install");
    assert_eq!(reason_of(not.unwrap_err()), "could not run cargo: denied");
}

#[test]
fn a_repository_is_probed_cloned_and_checked_out() {
    let url = "https://example.test/p";
    let steps = |r: Option<&GitRef>| -> Vec<GitStep> {
        inspection(url, r, "/t/repo").iter().map(|c| c.step).collect()
    };
    assert_eq!(steps(None), vec![GitStep::Probe, GitStep::Clone, GitStep::Checkout]);
    let rev = GitRef::Rev("abc".to_string());
    assert_eq!(
        steps(Some(&rev)),
        vec![GitStep::Probe, GitStep::Clone, GitStep::Fetch, GitStep::Checkout]
    );
    let calls = inspection(url, Some(&rev), "/t/repo");
    assert_eq!(calls[0].argv, words(&["ls-remote", "--exit-code", "--", url]));
    assert!(!calls[1].in_clone && calls[2].in_clone && calls[3].in_clone);
    assert_eq!(calls[3].argv, words(&["checkout", "--quiet", "abc", "--"]));
    assert_eq!(head_call().argv, words(&["rev-parse", "HEAD"]));
    let bad = PluginInstallArgs { rev: Some("-x".to_string()), ..install_args() };
    assert!(vet_git(&bad, url).is_err());
    assert!(vet_git(&install_args(), "ext::sh").is_err());
    assert_eq!(vet_git(&install_args(), url), Ok(None));
}

// ---- Removing -----------------------------------------------------------------

#[test]
fn an_uninstall_names_what_clove_installed() {
    let all = vec![installed("clove-sync-a", "1.0.0"), installed("clove-import-b", "2.0.0")];
    assert_eq!(find_installed(&all, "sync-a", "").unwrap().unwrap().package, "clove-sync-a");
    assert_eq!(find_installed(&all, "b", "").unwrap().unwrap().package, "clove-import-b");
    assert_eq!(find_installed(&all, "zz", "").unwrap(), None);
    let target = uninstall_target(&all, "clove-sync-a", None, "/h", "").unwrap();
    assert_eq!(target.package, "clove-sync-a");
    let foreign = uninstall_target(&all, "zz", Some("/usr/bin/clove-zz"), "/h", "").unwrap_err();
    assert!(reason_of(foreign).contains("/usr/bin/clove-zz"));
    let unknown = uninstall_target(&all, "zz", None, "/h", "").unwrap_err();
    assert_eq!(reason_of(unknown), "no plugin `zz` was installed by clove");
    assert_eq!(binary_paths(&target, "/h", ".exe"), words(&["/h/bin/clove-sync-a.exe"]));
    let out = after_uninstall(OutputFormat::Human, &target, &vec![]).unwrap();
    assert_eq!(out[0].line(), "uninstalled clove-sync-a 1.0.0");
    let left = after_uninstall(OutputFormat::Human, &target, &words(&["/h/bin/x"])).unwrap_err();
    assert!(reason_of(left).contains("this binary is still present"));
}

// ---- Updating -----------------------------------------------------------------

fn frame(checked: usize) -> UpdateFrame {
    UpdateFrame {
        home: "/h".to_string(),
        exe_suffix: "".to_string(),
        checked,
        skipped: 0,
        scope: "all".to_string(),
        format: OutputFormat::Json,
    }
}

fn checked(name: &str, from: &str, to: &str) -> Checked {
    Checked { installed: installed(name, from), latest: Some(plugin(name, to)) }
}

#[test]
fn the_targets_of_an_update_are_looked_up() {
    let all = || vec![installed("clove-sync-a", "0.9.0"), installed("clove-sync-b", "0.9.0")];
    assert_eq!(update_scope(&update_args()), "all");
    let one = PluginUpdateArgs { name: Some("sync-a".to_string()), ..update_args() };
    assert_eq!(update_scope(&one), "one");
    assert_eq!(update_targets(&one, all(), "").unwrap().len(), 1);
    let missing = PluginUpdateArgs { name: Some("zz".to_string()), ..update_args() };
    assert!(update_targets(&missing, all(), "").is_err());
    assert_eq!(count_targets(&all()), (2, 0));
    let fetch = registry(&["clove-sync-a"]);
    let client = CratesIo::with_root(&fetch, ROOT);
    let looked = check_targets(&client, all()).unwrap();
    assert_eq!(looked.len(), 2);
    assert!(looked[0].latest.is_some() && looked[1].latest.is_none());
    let mut down = registry(&["clove-sync-a"]);
    down.broken = Some("clove-sync-b".to_string());
    let client = CratesIo::with_root(&down, ROOT);
    assert!(check_targets(&client, all()).is_err());
}

#[test]
fn an_update_gives_every_package_its_turn() {
    let all = vec![
        checked("clove-sync-a", "1.0.0", "1.1.0"),
        checked("clove-sync-b", "1.0.0", "2.0.0"),
        checked("clove-sync-c", "1.0.0", "3.0.0"),
        checked("clove-sync-d", "4.0.0", "4.0.0"),
    ];
    let known = words(&["clove-sync-a", "clove-sync-b", "clove-sync-c", "clove-sync-d"]);
    let (notes, next) = begin_update(&update_args(), &all, Some(&known), frame(4), PIPE);
    assert!(notes.is_empty());
    let job = match next {
        UpdateNext::Build(job, argv) => {
            assert!(argv.contains(&"clove-sync-a".to_string()));
            job
        }
        other => panic!("{:?}", other),
    };
    let (notes, next) = job.built(&CargoRun::Failed(Some(1)));
    assert!(notes[0].line().starts_with("warning: clove-sync-a was not updated: "));
    let job = match next {
        UpdateNext::Build(job, _) => job,
        other => panic!("{:?}", other),
    };
    let job = match job.built(&CargoRun::Success).1 {
        UpdateNext::Probe(job, path) => {
            assert_eq!(path, "/h/bin/clove-sync-b");
            job
        }
        other => panic!("{:?}", other),
    };
    let job = match job.probed(None) {
        UpdateNext::Build(job, _) => job,
        other => panic!("{:?}", other),
    };
    let job = match job.built(&CargoRun::Success).1 {
        UpdateNext::Probe(job, _) => job,
        other => panic!("{:?}", other),
    };
    let (job, reason) = match job.probed(Some(&probe(9))) {
        UpdateNext::Remove(job, reason, argv) => {
            assert_eq!(argv[4], "clove-sync-c");
            (job, reason)
        }
        other => panic!("{:?}", other),
    };
    let (notes, next) = job.removed(&reason, "/h/bin/clove-sync-c", true, false);
    assert!(notes[0].line().ends_with("; the install has been rolled back"));
    match next {
        UpdateNext::End(Ok(out)) => {
            let told = data(&out);
            assert_eq!(
                told.get("updated").unwrap().to_text(),
                r#"[{"from":"1.0.0","package":"clove-sync-b","to":"2.0.0"}]"#
            );
            assert_eq!(told.get("checked").and_then(|v| v.as_u64()), Some(4));
            let meta = Json::parse(&out[0].line()).unwrap();
            let warnings = meta.get("_meta").and_then(|m| m.get("warnings")).unwrap();
            assert_eq!(warnings.as_array().unwrap().len(), 2);
        }
        other => panic!("{:?}", other),
    }
}

#[test]
fn an_update_holds_back_what_the_gates_refuse() {
    let all = vec![checked("clove-sync-a", "1.0.0", "2.0.0")];
    let plan = plan_update(&update_args(), &all, Some(&words(&["clove-sync-z"])));
    assert!(plan.upgrades.is_empty());
    assert!(plan.warnings()[0].starts_with("clove-sync-a is not updated: "));
    let (notes, next) =
        begin_update(&update_args(), &all, Some(&words(&["clove-sync-z"])), frame(1), PIPE);
    assert_eq!(notes.len(), 1);
    match next {
        UpdateNext::End(Ok(out)) => {
            assert_eq!(data(&out).get("updated").unwrap().to_text(), "[]");
        }
        other => panic!("{:?}", other),
    }
}

#[test]
fn an_update_asks_first() {
    let all = vec![checked("clove-sync-a", "1.0.0", "2.0.0")];
    let known = words(&["clove-sync-a"]);
    let ask = PluginUpdateArgs { yes: false, ..update_args() };
    let human = || UpdateFrame { format: OutputFormat::Human, ..frame(1) };
    let (notes, next) = begin_update(&ask, &all, Some(&known), human(), TTY);
    assert_eq!(notes.len(), 1);
    match next {
        UpdateNext::Ask(job, question) => {
            assert_eq!(question, "  Update these plugins? [y/N] ");
            match job.answered(false) {
                UpdateNext::End(Ok(out)) => assert_eq!(out[0].line(), "not updated"),
                other => panic!("{:?}", other),
            }
        }
        other => panic!("{:?}", other),
    }
    let (_, next) = begin_update(&ask, &all, Some(&known), human(), PIPE);
    assert!(matches!(next, UpdateNext::End(Err(_))));
}

#[test]
fn an_update_of_nothing_ends_at_once() {
    match start_update(OutputFormat::Human, &update_args(), vec![]) {
        UpdateStart::Nothing(out) => {
            assert_eq!(out[0].line(), "no clove-installed plugins to update");
        }
        other => panic!("{other:?}"),
    }
    let one = |source| Installed {
        package: "clove-sync-x".to_string(),
        version: "1.0.0".to_string(),
        source,
        bins: vec![],
    };
    let targets = vec![one(Source::Registry), one(Source::Path("p".to_string()))];
    match start_update(OutputFormat::Human, &update_args(), targets) {
        UpdateStart::Check { targets, checked, skipped } => {
            assert_eq!((targets.len(), checked, skipped), (2, 1, 1));
        }
        other => panic!("{other:?}"),
    }
}

#[test]
fn a_repository_is_built_at_the_commit_that_was_inspected() {
    let found = vec![GitPlugin {
        package: "clove-sync-x".to_string(),
        bin: "clove-sync-x".to_string(),
    }];
    let tag = GitRef::Tag("v1".to_string());
    let of = |args: &PluginInstallArgs, reference| {
        Inspected::of_repository("https://e.test/p", &found, args, reference, "abc", "/h", "")
    };
    let chosen = of(&install_args(), Some(&tag)).unwrap();
    assert_eq!((chosen.package.as_str(), chosen.commit.as_str()), ("clove-sync-x", "abc"));
    assert_eq!(chosen.path, "/h/bin/clove-sync-x");
    assert!(chosen.pinned);
    assert!(!of(&install_args(), None).unwrap().pinned);
    let other = PluginInstallArgs { package: Some("nope".to_string()), ..install_args() };
    assert!(of(&other, None).is_err());
}

#[test]
fn a_failed_rollback_claims_nothing() {
    let probe = parse_probe_json(r#"{"min_clove_plugin_api":9}"#);
    let reason = incompatible_reason("clove-sync-x", probe.as_ref()).unwrap();
    for (uninstalled, still_there) in [(false, true), (false, false), (true, true)] {
        let told = roll_back(&reason, "/h/bin/clove-sync-x", uninstalled, still_there);
        assert!(told.contains("/h/bin/clove-sync-x") && told.contains("FAILED"));
        assert!(!told.contains("has been rolled back"));
    }
    assert!(roll_back(&reason, "/h/bin/x", true, false).contains("has been rolled back"));
}
