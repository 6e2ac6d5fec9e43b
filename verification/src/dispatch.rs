//! Which command runs, in which format, and how the process ends.

use vstd::prelude::*;

use crate::cli::{
    AssignArgs, CommentArgs, CommentsArgs, Commands, DaemonArgs, DepArgs, DoctorArgs, EditArgs, ExportArgs, FilterArgs,
    ImportArgs, LabelArgs, NewArgs, PriorityArgs, QueryArgs, SearchArgs, ServeArgs, SetArgs, ShowArgs, StatsArgs,
};
use crate::cmd::export::is_native;
use crate::error::{invalid, invalid_field, CloveError, ErrorView};
use crate::exit::{exit_of, ExitCode};
use crate::output::{emit_error, emit_unknown_subcommand, error_output, format_in_force, resolve_format, unknown_subcommand, Out, OutView, OutputFormat};
use crate::text;
use crate::view::{status_of, ItemStatus};

verus! {

/// What a command needs before it can run.
#[derive(Debug, Clone, Copy, PartialEq, Eq, Structural)]
pub enum Scope {
    /// Nothing: it works where there is no repository yet.
    Anywhere,
    /// A plugin by its name; only one that is found needs a repository.
    Plugin,
    /// A repository.
    Repository,
}

/// What a command needs.
pub open spec fn scope_of(command: Commands) -> Scope {
    match command {
        Commands::Version | Commands::Init(_) | Commands::AgentDoc(_) | Commands::Setup(_)
        | Commands::MergeDriver(_) | Commands::Mcp | Commands::Plugin(_) => Scope::Anywhere,
        Commands::External(_) => Scope::Plugin,
        _ => Scope::Repository,
    }
}

/// Says what a command needs.
pub fn scope(command: &Commands) -> (r: Scope)
    ensures
        r == scope_of(*command),
{
    match command {
        Commands::Version => Scope::Anywhere,
        Commands::Init(_) => Scope::Anywhere,
        Commands::AgentDoc(_) => Scope::Anywhere,
        Commands::Setup(_) => Scope::Anywhere,
        Commands::MergeDriver(_) => Scope::Anywhere,
        Commands::Mcp => Scope::Anywhere,
        Commands::Plugin(_) => Scope::Anywhere,
        Commands::External(_) => Scope::Plugin,
        _ => Scope::Repository,
    }
}

/// The format of a command: the repository's default has a say only where the command runs
/// in one.
pub open spec fn dispatch_format(
    scope: Scope,
    flag: Option<OutputFormat>,
    env: Option<Seq<char>>,
    found: Option<OutputFormat>,
) -> OutputFormat {
    format_in_force(
        flag,
        env,
        if scope == Scope::Anywhere {
            None
        } else {
            found
        },
    )
}

/// Resolves the format of a command. `found` is the default of the repository, if one was
/// found.
pub fn format_for(
    scope: Scope,
    flag: Option<OutputFormat>,
    env: Option<&str>,
    found: Option<OutputFormat>,
) -> (r: OutputFormat)
    ensures
        r == dispatch_format(scope, flag, text::opt_view(env), found),
{
    resolve_format(
        flag,
        env,
        if scope == Scope::Anywhere {
            None
        } else {
            found
        },
    )
}

// ---- Commands of a repository -------------------------------------------------

/// What is done in a repository.
#[derive(Debug)]
pub enum RepoAction {
    New(NewArgs),
    Show(ShowArgs),
    Edit(EditArgs),
    SetFields(SetArgs),
    /// `status`, `start` and `close` are one thing.
    SetStatus { id: String, status: ItemStatus },
    Label(LabelArgs),
    Assign(AssignArgs),
    Priority(PriorityArgs),
    Dep(DepArgs),
    Ready(FilterArgs),
    Blocked(FilterArgs),
    Ls(FilterArgs),
    Query(QueryArgs),
    Comment(CommentArgs),
    Comments(CommentsArgs),
    Search(SearchArgs),
    Stats(StatsArgs),
    Reindex,
    Doctor(DoctorArgs),
    Daemon(DaemonArgs),
    Tui,
    Serve(ServeArgs),
    /// The restore that is built in.
    Import(ImportArgs),
    /// The export that is built in.
    Export(ExportArgs),
    /// A plugin serves the provider.
    Provider { multiplexer: String, provider: String, rest: Vec<String> },
    /// The command was dispatched before.
    Nothing,
}

/// Does a route hand the provider to a plugin, with all of its arguments?
pub open spec fn is_provider(
    r: Result<RepoAction, CloveError>,
    multiplexer: Seq<char>,
    provider: String,
    rest: Vec<String>,
) -> bool {
    r matches Ok(RepoAction::Provider { multiplexer: m, provider: p, rest: a }) && m@ == multiplexer
        && p == provider && a == rest
}

/// Is this the outcome of setting a status by its word?
pub open spec fn is_status_word(r: Result<RepoAction, CloveError>, id: String, word: Seq<char>) -> bool {
    match status_of(word) {
        Ok(s) => r == Ok::<RepoAction, CloveError>(RepoAction::SetStatus { id, status: s }),
        Err(e) => r is Err && r->Err_0.deep_view() == e,
    }
}

/// Routes a command of a repository. `import` and `export` serve `json` and `jsonl`
/// themselves, and hand any other provider to a plugin; `sync` hands over every one.
pub fn run_repo(command: Commands) -> (r: Result<RepoAction, CloveError>)
    ensures
        match command {
            Commands::New(a) => r == Ok::<RepoAction, CloveError>(RepoAction::New(a)),
            Commands::Show(a) => r == Ok::<RepoAction, CloveError>(RepoAction::Show(a)),
            Commands::Edit(a) => r == Ok::<RepoAction, CloveError>(RepoAction::Edit(a)),
            Commands::SetFields(a) => r == Ok::<RepoAction, CloveError>(RepoAction::SetFields(a)),
            Commands::Status(a) => is_status_word(r, a.id, a.state@),
            Commands::Start(a) => r == Ok::<RepoAction, CloveError>(
                RepoAction::SetStatus { id: a.id, status: ItemStatus::InProgress },
            ),
            Commands::Close(a) => r == Ok::<RepoAction, CloveError>(
                RepoAction::SetStatus { id: a.id, status: ItemStatus::Closed },
            ),
            Commands::Label(a) => r == Ok::<RepoAction, CloveError>(RepoAction::Label(a)),
            Commands::Assign(a) => r == Ok::<RepoAction, CloveError>(RepoAction::Assign(a)),
            Commands::Priority(a) => r == Ok::<RepoAction, CloveError>(RepoAction::Priority(a)),
            Commands::Dep(a) => r == Ok::<RepoAction, CloveError>(RepoAction::Dep(a)),
            Commands::Ready(a) => r == Ok::<RepoAction, CloveError>(RepoAction::Ready(a)),
            Commands::Blocked(a) => r == Ok::<RepoAction, CloveError>(RepoAction::Blocked(a)),
            Commands::Ls(a) => r == Ok::<RepoAction, CloveError>(RepoAction::Ls(a)),
            Commands::Query(a) => r == Ok::<RepoAction, CloveError>(RepoAction::Query(a)),
            Commands::Comment(a) => r == Ok::<RepoAction, CloveError>(RepoAction::Comment(a)),
            Commands::Comments(a) => r == Ok::<RepoAction, CloveError>(RepoAction::Comments(a)),
            Commands::Search(a) => r == Ok::<RepoAction, CloveError>(RepoAction::Search(a)),
            Commands::Stats(a) => r == Ok::<RepoAction, CloveError>(RepoAction::Stats(a)),
            Commands::Reindex => r == Ok::<RepoAction, CloveError>(RepoAction::Reindex),
            Commands::Doctor(a) => r == Ok::<RepoAction, CloveError>(RepoAction::Doctor(a)),
            Commands::Daemon(a) => r == Ok::<RepoAction, CloveError>(RepoAction::Daemon(a)),
            Commands::Tui => r == Ok::<RepoAction, CloveError>(RepoAction::Tui),
            Commands::Serve(a) => r == Ok::<RepoAction, CloveError>(RepoAction::Serve(a)),
            Commands::Import(a) => if is_native(a.provider@) {
                r == Ok::<RepoAction, CloveError>(RepoAction::Import(a))
            } else {
                is_provider(r, "import"@, a.provider, a.rest)
            },
            Commands::Export(a) => if is_native(a.provider@) {
                r == Ok::<RepoAction, CloveError>(RepoAction::Export(a))
            } else {
                is_provider(r, "export"@, a.provider, a.rest)
            },
            Commands::Sync(a) => is_provider(r, "sync"@, a.provider, a.rest),
            _ => r == Ok::<RepoAction, CloveError>(RepoAction::Nothing),
        },
{
    match command {
        Commands::New(a) => Ok(RepoAction::New(a)),
        Commands::Show(a) => Ok(RepoAction::Show(a)),
        Commands::Edit(a) => Ok(RepoAction::Edit(a)),
        Commands::SetFields(a) => Ok(RepoAction::SetFields(a)),
        Commands::Status(a) => match crate::view::parse_status(a.state.as_str()) {
            Ok(status) => Ok(RepoAction::SetStatus { id: a.id, status }),
            Err(e) => Err(e),
        },
        Commands::Start(a) => Ok(
            RepoAction::SetStatus { id: a.id, status: ItemStatus::InProgress },
        ),
        Commands::Close(a) => Ok(RepoAction::SetStatus { id: a.id, status: ItemStatus::Closed }),
        Commands::Label(a) => Ok(RepoAction::Label(a)),
        Commands::Assign(a) => Ok(RepoAction::Assign(a)),
        Commands::Priority(a) => Ok(RepoAction::Priority(a)),
        Commands::Dep(a) => Ok(RepoAction::Dep(a)),
        Commands::Ready(a) => Ok(RepoAction::Ready(a)),
        Commands::Blocked(a) => Ok(RepoAction::Blocked(a)),
        Commands::Ls(a) => Ok(RepoAction::Ls(a)),
        Commands::Query(a) => Ok(RepoAction::Query(a)),
        Commands::Comment(a) => Ok(RepoAction::Comment(a)),
        Commands::Comments(a) => Ok(RepoAction::Comments(a)),
        Commands::Search(a) => Ok(RepoAction::Search(a)),
        Commands::Stats(a) => Ok(RepoAction::Stats(a)),
        Commands::Reindex => Ok(RepoAction::Reindex),
        Commands::Doctor(a) => Ok(RepoAction::Doctor(a)),
        Commands::Daemon(a) => Ok(RepoAction::Daemon(a)),
        Commands::Tui => Ok(RepoAction::Tui),
        Commands::Serve(a) => Ok(RepoAction::Serve(a)),
        Commands::Import(a) => {
            if crate::cmd::import::is_builtin(a.provider.as_str()) {
                Ok(RepoAction::Import(a))
            } else {
                Ok(
                    RepoAction::Provider {
                        multiplexer: "import".to_owned(),
                        provider: a.provider,
                        rest: a.rest,
                    },
                )
            }
        },
        Commands::Export(a) => {
            if crate::cmd::export::is_builtin(a.provider.as_str()) {
                Ok(RepoAction::Export(a))
            } else {
                Ok(
                    RepoAction::Provider {
                        multiplexer: "export".to_owned(),
                        provider: a.provider,
                        rest: a.rest,
                    },
                )
            }
        },
        Commands::Sync(a) => Ok(
            RepoAction::Provider {
                multiplexer: "sync".to_owned(),
                provider: a.provider,
                rest: a.rest,
            },
        ),
        _ => Ok(RepoAction::Nothing),
    }
}

/// The binary names of a provider's plugin: the multiplexer and the provider.
pub fn provider_segments(multiplexer: &str, provider: &str) -> (r: Vec<String>)
    ensures
        r.deep_view() == seq![multiplexer@, provider@],
{
    let v: Vec<String> = vec![multiplexer.to_owned(), provider.to_owned()];
    assert(v.deep_view() =~= seq![multiplexer@, provider@]);
    v
}

/// What is said of a provider that no plugin serves.
pub open spec fn no_provider(multiplexer: Seq<char>, provider: Seq<char>) -> ErrorView {
    invalid_field(
        "provider"@,
        "unknown "@ + multiplexer + " provider `"@ + provider + "`; install clove-"@ + multiplexer
            + "-"@ + provider,
    )
}

/// Decides what a provider runs: the plugin that was found, or nothing at all. There is no
/// falling back to a plugin of the bare name.
pub fn dispatch_multiplexer(multiplexer: &str, provider: &str, found: Option<String>) -> (r: Result<
    String,
    CloveError,
>)
    ensures
        match found {
            Some(path) => r == Ok::<String, CloveError>(path),
            None => r is Err && r->Err_0.deep_view() == no_provider(multiplexer@, provider@),
        },
{
    match found {
        Some(path) => Ok(path),
        None => Err(
            invalid(
                "provider",
                text::cat8(
                    "unknown ",
                    multiplexer,
                    " provider `",
                    provider,
                    "`; install clove-",
                    multiplexer,
                    "-",
                    provider,
                ),
            ),
        ),
    }
}

// ---- External subcommands -----------------------------------------------------

/// What becomes of an external subcommand.
#[derive(Debug, PartialEq, Eq)]
pub enum External {
    /// There is no such plugin.
    Unknown { lines: Vec<Out>, exit: ExitCode },
    /// The plugin runs with these arguments, once the repository is found.
    Run { path: String, name: String, rest: Vec<String> },
}

/// What is printed of a subcommand that nothing serves.
pub open spec fn unknown_output(
    format: OutputFormat,
    name: Seq<char>,
    binary: Seq<char>,
    installed: Seq<Seq<char>>,
    quiet: bool,
) -> Seq<OutView> {
    if format == OutputFormat::Human {
        if quiet {
            Seq::empty()
        } else {
            seq![OutView::Note("error: "@ + unknown_subcommand(name, binary, installed))]
        }
    } else {
        seq![
            OutView::Json(
                crate::output::failure(
                    "UNKNOWN_SUBCOMMAND"@,
                    unknown_subcommand(name, binary, installed),
                    1,
                ),
            ),
        ]
    }
}

fn tail_of(argv: &Vec<String>) -> (r: Vec<String>)
    requires
        argv.len() > 0,
    ensures
        r.deep_view() == argv.deep_view().drop_first(),
{
    let ghost all = argv.deep_view();
    let mut out: Vec<String> = Vec::new();
    let mut i: usize = 1;
    while i < argv.len()
        invariant
            1 <= i <= argv.len(),
            all == argv.deep_view(),
            out.len() == i - 1,
            forall|j: int| 0 <= j < i - 1 ==> (#[trigger] out@[j])@ == all[j + 1],
        decreases argv.len() - i,
    {
        assert(all[i as int] == argv@[i as int]@);
        out.push(argv[i].clone());
        i += 1;
    }
    assert(out.deep_view() =~= all.drop_first());
    out
}

/// Decides what becomes of an external subcommand. The plugin is looked for first, so that
/// an unknown subcommand is a usage error even where there is no repository.
pub fn dispatch_external(
    argv: &Vec<String>,
    found: Option<String>,
    installed: &Vec<String>,
    format: OutputFormat,
    quiet: bool,
    exe_suffix: &str,
) -> (r: External)
    ensures
        match r {
            External::Unknown { lines, exit } => {
                &&& exit == ExitCode::Usage
                &&& argv@.len() == 0 || found is None
                &&& lines.deep_view() == (if argv@.len() == 0 {
                    unknown_output(format, ""@, "clove-"@, Seq::empty(), quiet)
                } else {
                    unknown_output(
                        format,
                        argv@[0]@,
                        "clove-"@ + argv@[0]@ + exe_suffix@,
                        installed.deep_view(),
                        quiet,
                    )
                })
            },
            External::Run { path, name, rest } => {
                &&& argv@.len() > 0
                &&& found == Some(path)
                &&& name@ == argv@[0]@
                &&& rest.deep_view() == argv.deep_view().drop_first()
            },
        },
{
    if argv.len() == 0 {
        let none: Vec<String> = Vec::new();
        assert(none.deep_view() =~= Seq::<Seq<char>>::empty());
        let (lines, exit) = emit_unknown_subcommand(format, "", "clove-", &none, quiet);
        return External::Unknown { lines, exit };
    }
    match found {
        Some(path) => External::Run { path, name: argv[0].clone(), rest: tail_of(argv) },
        None => {
            let binary = text::cat3("clove-", argv[0].as_str(), exe_suffix);
            let (lines, exit) = emit_unknown_subcommand(
                format,
                argv[0].as_str(),
                binary.as_str(),
                installed,
                quiet,
            );
            External::Unknown { lines, exit }
        },
    }
}

// ---- The end ------------------------------------------------------------------

/// The exit code of a command line that does not parse: showing help is a success.
pub fn parse_exit(shown: bool) -> (r: ExitCode)
    ensures
        r == (if shown {
            ExitCode::Success
        } else {
            ExitCode::Usage
        }),
{
    if shown {
        ExitCode::Success
    } else {
        ExitCode::Usage
    }
}

/// How a command ends: with its own exit code, or with that of its error.
pub fn finish(format: OutputFormat, result: Result<ExitCode, CloveError>, quiet: bool) -> (r: (
    Vec<Out>,
    ExitCode,
))
    ensures
        match result {
            Ok(code) => r.1 == code && r.0.deep_view() == Seq::<OutView>::empty(),
            Err(e) => exit_of(e.deep_view(), r.1) && r.0.deep_view() == error_output(
                format,
                e.deep_view(),
                r.1,
                quiet,
            ),
        },
{
    match result {
        Ok(code) => {
            let out: Vec<Out> = Vec::new();
            assert(out.deep_view() =~= Seq::<OutView>::empty());
            (out, code)
        },
        Err(e) => emit_error(format, &e, quiet),
    }
}

/// What sets clove up works where there is no repository: the commands that make one, that
/// describe clove, that are run by git or an assistant, and those on plugins.
pub proof fn law_setting_up_needs_no_repository(command: Commands)
    ensures
        command is Init || command is Setup || command is Version || command is AgentDoc
            || command is Plugin || command is Mcp || command is MergeDriver ==> scope_of(command)
            == Scope::Anywhere,
{
}

/// A command that needs no repository goes by the flag and the environment alone; any other
/// also by the repository's own configuration.
pub proof fn law_a_repository_gives_its_own_format(
    scope: Scope,
    f: OutputFormat,
    env: Option<Seq<char>>,
    found: Option<OutputFormat>,
)
    ensures
        dispatch_format(scope, Some(f), env, found) == f,
        dispatch_format(Scope::Anywhere, None, env, found) == dispatch_format(
            Scope::Anywhere,
            None,
            env,
            None,
        ),
        scope != Scope::Anywhere ==> dispatch_format(scope, None, None, Some(f)) == f,
        dispatch_format(scope, None, None, None) == OutputFormat::Human,
{
}

/// A command of an item store needs a repository; one that clove does not know needs its
/// plugin.
pub proof fn law_items_need_a_repository(command: Commands)
    ensures
        command is External <==> scope_of(command) == Scope::Plugin,
        command is New || command is Show || command is Edit || command is Ls || command is Ready
            || command is Search || command is Import || command is Export || command is Sync
            || command is Stats || command is Doctor ==> scope_of(command) == Scope::Repository,
{
}

/// A provider that is missing is named, and so is the plugin that would provide it.
pub proof fn law_a_missing_provider_is_named(mux: Seq<char>, provider: Seq<char>)
    ensures
        no_provider(mux, provider) matches ErrorView::InvalidField { field, reason } && field
            == "provider"@ && text::begins(
            reason,
            "unknown "@ + mux + " provider `"@ + provider,
        ) && text::ends(reason, "clove-"@ + mux + "-"@ + provider),
{
    if let ErrorView::InvalidField { field, reason } = no_provider(mux, provider) {
        reveal_strlit("`; install clove-");
        reveal_strlit("clove-");
        let front = "unknown "@ + mux + " provider `"@ + provider;
        assert(reason.take(front.len() as int) =~= front);
        let back = "clove-"@ + mux + "-"@ + provider;
        assert("`; install clove-"@.skip(11) =~= "clove-"@);
        assert(reason.skip(reason.len() - back.len()) =~= back);
    }
}

/// An unknown command is told in every format; for people only where they want to hear it.
pub proof fn law_an_unknown_command_is_told(
    name: Seq<char>,
    binary: Seq<char>,
    installed: Seq<Seq<char>>,
    quiet: bool,
)
    ensures
        unknown_output(OutputFormat::Human, name, binary, installed, false) == seq![
            OutView::Note("error: "@ + unknown_subcommand(name, binary, installed)),
        ],
        unknown_output(OutputFormat::Human, name, binary, installed, true).len() == 0,
        unknown_output(OutputFormat::Json, name, binary, installed, quiet)[0] matches OutView::Json(
            v,
        ) && v.member("ok"@) == Some(crate::json::JsonView::Bool(false)) && (v.member("error"@)
            matches Some(e) && e.member("code"@) == Some(
            crate::json::JsonView::Text("UNKNOWN_SUBCOMMAND"@),
        ) && e.member("message"@) == Some(
            crate::json::JsonView::Text(unknown_subcommand(name, binary, installed)),
        ) && e.member("exit"@) == Some(crate::json::num(1))),
{
    crate::output::law_a_failure_tells_its_code(
        "UNKNOWN_SUBCOMMAND"@,
        unknown_subcommand(name, binary, installed),
        1,
    );
}

} // verus!
