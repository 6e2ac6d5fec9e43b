//! The command-line surface: the global flags and the subcommands, as plain data.

use vstd::prelude::*;

use crate::error::{invalid, invalid_field, CloveError, ErrorView};
use crate::output::{format_of, OutputFormat};
use crate::text;

verus! {

/// The whole command line.
#[derive(Debug)]
pub struct Cli {
    /// Output format.
    pub format: Option<OutputFormat>,
    /// Force a file scan even if an index or daemon is present.
    pub no_index: bool,
    /// Use the thorough per-file staleness check when reading via the index.
    pub deep: bool,
    /// Suppress informational stderr output.
    pub quiet: bool,
    /// Terminal color control.
    pub color: ColorChoice,
    /// Override `.clove/` discovery with an explicit `.clove` directory.
    pub clove_dir: Option<String>,
    pub command: Commands,
}

/// Terminal color preference.
#[derive(Debug, Clone, Copy, PartialEq, Eq, Structural)]
pub enum ColorChoice {
    Auto,
    Always,
    Never,
}

/// The subcommand set.
#[derive(Debug)]
pub enum Commands {
    Init(InitArgs),
    New(NewArgs),
    Show(ShowArgs),
    Edit(EditArgs),
    /// `clove set`.
    SetFields(SetArgs),
    Status(StatusArgs),
    Start(IdArg),
    Close(IdArg),
    Label(LabelArgs),
    Assign(AssignArgs),
    Priority(PriorityArgs),
    Dep(DepArgs),
    Ready(FilterArgs),
    Blocked(FilterArgs),
    Ls(FilterArgs),
    Query(QueryArgs),
    Comment(CommentArgs),
    Comments(CommentsArgs),
    Search(SearchArgs),
    Stats(StatsArgs),
    Reindex,
    Import(ImportArgs),
    Export(ExportArgs),
    Sync(SyncArgs),
    MergeDriver(MergeDriverArgs),
    AgentDoc(AgentDocArgs),
    Setup(SetupArgs),
    Doctor(DoctorArgs),
    Daemon(DaemonArgs),
    Tui,
    Mcp,
    Serve(ServeArgs),
    Version,
    Plugin(PluginArgs),
    /// An external subcommand plugin: its name, then its own arguments.
    External(Vec<String>),
}

/// `clove plugin <list|search|install|uninstall|update>`.
#[derive(Debug)]
pub struct PluginArgs {
    pub action: PluginAction,
}

#[derive(Debug)]
pub enum PluginAction {
    /// List installed plugins; with `--all`, also those published to crates.io.
    List(PluginListArgs),
    /// Search published plugins by name or description.
    Search(PluginSearchArgs),
    /// Build and install a published plugin.
    Install(PluginInstallArgs),
    /// Remove a plugin clove installed.
    Uninstall(PluginUninstallArgs),
    /// Re-resolve installed plugins to their newest published version.
    Update(PluginUpdateArgs),
}

/// `clove plugin install <name>` or `clove plugin install --git <url>`.
#[derive(Debug)]
pub struct PluginInstallArgs {
    /// The plugin to install: a provider (`gitlab`) or an exact crate name.
    pub name: Option<String>,
    /// Install from this repository instead.
    pub git: Option<String>,
    pub tag: Option<String>,
    pub rev: Option<String>,
    pub branch: Option<String>,
    /// Which package of the repository to install.
    pub package: Option<String>,
    /// Skip the confirmation. Required for any non-interactive run.
    pub yes: bool,
    /// Reinstall even if the plugin is already present.
    pub force: bool,
    /// Treat an unverifiable `clove-plugin` dependency as fatal.
    pub strict: bool,
    /// Install even when every published version is yanked.
    pub allow_yanked: bool,
}

/// `clove plugin uninstall <name>`.
#[derive(Debug)]
pub struct PluginUninstallArgs {
    /// The plugin subcommand to remove, e.g. `sync-github`.
    pub name: String,
}

/// `clove plugin update [<name>] [--all]`.
#[derive(Debug)]
pub struct PluginUpdateArgs {
    /// The plugin to update. Omit (or pass `--all`) to check every one.
    pub name: Option<String>,
    /// Check every clove-installed plugin.
    pub all: bool,
    /// Skip the confirmation. Required for any non-interactive run.
    pub yes: bool,
    /// Treat an unverifiable `clove-plugin` dependency as fatal.
    pub strict: bool,
    /// Update to a version even when every published one is yanked.
    pub allow_yanked: bool,
}

/// `clove plugin list [--all] [--refresh]`.
#[derive(Debug)]
pub struct PluginListArgs {
    /// Also list plugins published to crates.io but not installed here.
    pub all: bool,
    /// Bypass the cached registry result and re-fetch (implies `--all`).
    pub refresh: bool,
}

/// `clove plugin search <query> [--refresh]`.
#[derive(Debug)]
pub struct PluginSearchArgs {
    /// Text matched case-insensitively against plugin names and descriptions.
    pub query: String,
    /// Bypass the cached registry result and re-fetch.
    pub refresh: bool,
}

/// `clove serve`.
#[derive(Debug)]
pub struct ServeArgs {
    /// Port to listen on; the configured one when absent.
    pub port: Option<u16>,
    /// Address to bind. Loopback only unless `--allow-non-loopback` is given.
    pub host: String,
    /// Open the served URL in the default browser.
    pub open: bool,
    /// Do not start the file-watcher.
    pub no_watch: bool,
    /// Permit binding a non-loopback address.
    pub allow_non_loopback: bool,
}

/// `clove daemon <start|stop|status>`.
#[derive(Debug)]
pub struct DaemonArgs {
    pub action: DaemonAction,
}

#[derive(Debug, Clone, Copy, PartialEq, Eq, Structural)]
pub enum DaemonAction {
    /// Have the daemon serve this project.
    Start,
    /// Stop serving this project, or, with `all`, stop the daemon.
    Stop { all: bool },
    /// Show the daemon's status.
    Status,
}

/// A bare `<id>` positional argument.
#[derive(Debug)]
pub struct IdArg {
    pub id: String,
}

#[derive(Debug)]
pub struct InitArgs {
    /// Override the generated id prefix.
    pub prefix: Option<String>,
    /// Also install the 3-way merge driver (`.gitattributes` + `.git/config`).
    pub merge_driver: bool,
}

#[derive(Debug)]
pub struct NewArgs {
    pub title: String,
    /// Item type (bug|feature|chore|docs|epic). Defaults to the config default.
    pub item_type: Option<String>,
    /// Priority 0 (highest) – 4. Defaults to 2.
    pub priority: Option<u8>,
    pub labels: Vec<String>,
    pub deps: Vec<String>,
    pub parent: Option<String>,
    pub assignee: Option<String>,
    pub body: Option<String>,
}

#[derive(Debug)]
pub struct ShowArgs {
    pub id: String,
    /// Comma-separated field projection.
    pub fields: Option<String>,
    pub verbose: bool,
    /// Omit null and empty-list keys from JSON output.
    pub compact: bool,
}

#[derive(Debug)]
pub struct EditArgs {
    pub id: String,
    /// `KEY=VALUE` field edits. If there are none, `$EDITOR` is opened.
    pub fields: Vec<String>,
}

#[derive(Debug)]
pub struct SetArgs {
    pub id: String,
    /// One or more `KEY=VALUE` assignments.
    pub assignments: Vec<String>,
}

#[derive(Debug)]
pub struct StatusArgs {
    pub id: String,
    /// The new status: `open`, `in_progress`, or `closed`.
    pub state: String,
}

#[derive(Debug)]
pub struct LabelArgs {
    pub id: String,
    /// `add` or `rm`.
    pub action: String,
    pub label: String,
}

#[derive(Debug)]
pub struct AssignArgs {
    pub id: String,
    /// The assignee (omit with `--clear` to unset).
    pub assignee: Option<String>,
    pub clear: bool,
}

#[derive(Debug)]
pub struct PriorityArgs {
    pub id: String,
    /// Priority 0 (highest) – 4.
    pub priority: u8,
}

#[derive(Debug)]
pub struct DepArgs {
    pub action: DepAction,
}

#[derive(Debug)]
pub enum DepAction {
    /// Add a hard dependency: `<id>` depends on `<dep-id>`.
    Add { id: String, dep_id: String },
    /// Remove a hard dependency.
    Rm { id: String, dep_id: String },
    /// Print the dependency tree rooted at `<id>`.
    Tree(DepTreeArgs),
    /// List dependency cycles.
    Cycle(DepCycleArgs),
}

#[derive(Debug)]
pub struct DepTreeArgs {
    pub id: String,
    /// Maximum depth (default 5; 0 for no limit).
    pub depth: Option<usize>,
    /// Remove the depth limit (same as a depth of 0).
    pub full: bool,
    /// Emit a flat array with a `depth` field instead of a nested tree.
    pub flat: bool,
}

#[derive(Debug)]
pub struct DepCycleArgs {
    /// Exit 3 if any cycle is found.
    pub fail_on_cycle: bool,
}

/// Shared filter/pagination flags for `ls`, `ready`, `blocked`.
#[derive(Debug)]
pub struct FilterArgs {
    /// Any of these statuses.
    pub status: Vec<String>,
    /// Any of these types.
    pub item_type: Vec<String>,
    /// **All** of these labels.
    pub label: Vec<String>,
    pub assignee: Option<String>,
    /// Any of these priorities.
    pub priority: Vec<u8>,
    /// Text in the id, title, or labels.
    pub q: Option<String>,
    pub sort: Option<String>,
    pub desc: bool,
    pub limit: Option<usize>,
    pub offset: Option<usize>,
    pub fields: Option<String>,
    pub compact: bool,
}

impl Default for FilterArgs {
    /// No filter, no order, no window and no projection.
    fn default() -> (r: FilterArgs)
        ensures
            r.status@.len() == 0,
            r.item_type@.len() == 0,
            r.label@.len() == 0,
            r.assignee is None,
            r.priority@.len() == 0,
            r.q is None,
            r.sort is None,
            !r.desc,
            r.limit is None,
            r.offset is None,
            r.fields is None,
            !r.compact,
    {
        FilterArgs {
            status: Vec::new(),
            item_type: Vec::new(),
            label: Vec::new(),
            assignee: None,
            priority: Vec::new(),
            q: None,
            sort: None,
            desc: false,
            limit: None,
            offset: None,
            fields: None,
            compact: false,
        }
    }
}

#[derive(Debug)]
pub struct QueryArgs {
    /// A JSON filter object. If omitted and stdin is not a TTY, read it there.
    pub filter: Option<String>,
    pub fields: Option<String>,
    pub compact: bool,
    pub sort: Option<String>,
    pub desc: bool,
    pub limit: Option<usize>,
    pub offset: Option<usize>,
}

#[derive(Debug)]
pub struct CommentArgs {
    pub id: String,
    pub message: String,
}

#[derive(Debug)]
pub struct CommentsArgs {
    pub id: String,
    /// Show at most this many (most recent) comments.
    pub limit: Option<usize>,
    /// Skip this many of the *newest* comments.
    pub skip_newest: Option<usize>,
}

#[derive(Debug)]
pub struct SearchArgs {
    pub text: String,
    pub sort: Option<String>,
    pub desc: bool,
    pub limit: Option<usize>,
    pub offset: Option<usize>,
    pub fields: Option<String>,
    pub compact: bool,
}

#[derive(Debug)]
pub struct StatsArgs {
    /// Cap the assignee/label breakdowns to the N highest counts.
    pub top: Option<usize>,
    /// Skip the per-epic completion rollup.
    pub no_epics: bool,
    /// Persist this report to the durable history in the index.
    pub snapshot: bool,
    /// Show the recorded snapshot history instead of a live report.
    pub history: bool,
    pub since: Option<String>,
    pub limit: Option<usize>,
    pub offset: Option<usize>,
}

#[derive(Debug)]
pub struct AgentDocArgs {
    /// Write to a file instead of stdout.
    pub out: Option<String>,
    /// Verify a file's embedded schema version matches this binary.
    pub check: bool,
    /// The file to check (with `--check`).
    pub file: Option<String>,
}

#[derive(Debug)]
pub struct SetupArgs {
    /// Write to the assistant's directory at home instead of the project's.
    pub global: bool,
    /// Report what would change without writing anything.
    pub dry_run: bool,
    /// Override the target directory.
    pub claude_dir: Option<String>,
}

#[derive(Debug)]
pub struct DoctorArgs {
    /// Apply safe repairs.
    pub fix: bool,
    /// Exit 4 while any unresolved error remains.
    pub strict: bool,
}

/// `clove import <provider> [args…]`.
#[derive(Debug)]
pub struct ImportArgs {
    /// The built-in `json`/`jsonl`, or a `clove-import-<provider>` plugin.
    pub provider: String,
    /// Everything after the provider.
    pub rest: Vec<String>,
}

/// `clove export <provider> [args…]`.
#[derive(Debug)]
pub struct ExportArgs {
    /// The built-in `json`/`jsonl`, or a `clove-export-<provider>` plugin.
    pub provider: String,
    /// Everything after the provider.
    pub rest: Vec<String>,
}

/// `clove sync <provider> [args…]`.
#[derive(Debug)]
pub struct SyncArgs {
    /// A `clove-sync-<provider>` plugin, e.g. `github`.
    pub provider: String,
    /// Everything after the provider.
    pub rest: Vec<String>,
}

/// The `clove export` output format.
#[derive(Debug, Clone, Copy, PartialEq, Eq, Structural)]
pub enum ExportFormat {
    /// A single JSON envelope with a `data` array of all items.
    Json,
    /// One item per line.
    Jsonl,
}

#[derive(Debug)]
pub struct MergeDriverArgs {
    /// The merge base; may be absent for an add/add merge.
    pub ancestor: String,
    /// Our version; the merged result is written back here.
    pub ours: String,
    /// Their version.
    pub theirs: String,
    /// The conflict marker size.
    pub marker_size: usize,
}

// ---- Values -------------------------------------------------------------------

/// Reads the value of `--format`, or says what it may be.
pub fn parse_format(raw: &str) -> (r: Result<OutputFormat, String>)
    ensures
        match r {
            Ok(f) => format_of(raw@) == Some(f),
            Err(e) => format_of(raw@) is None && e@ == "invalid format `"@ + raw@
                + "` (expected human|json|jsonl)"@,
        },
{
    match OutputFormat::parse(raw) {
        Some(f) => Ok(f),
        None => Err(text::cat3("invalid format `", raw, "` (expected human|json|jsonl)")),
    }
}

/// Is `s` an id prefix: `^[a-z][a-z0-9]{0,7}$`?
pub open spec fn is_id_prefix(s: Seq<char>) -> bool {
    &&& 1 <= s.len() <= 8
    &&& 'a' <= s[0] <= 'z'
    &&& forall|i: int| 0 <= i < s.len() ==> 'a' <= #[trigger] s[i] <= 'z' || text::is_digit(s[i])
}

/// Reads the value of `init --prefix`: anything that the config loader would later
/// refuse fails here, before anything is created.
pub fn parse_id_prefix(raw: &str) -> (r: Result<String, String>)
    ensures
        match r {
            Ok(s) => is_id_prefix(raw@) && s@ == raw@,
            Err(e) => !is_id_prefix(raw@) && e@ == "id_prefix `"@ + raw@
                + "` must match ^[a-z][a-z0-9]{0,7}$"@,
        },
{
    let x = text::chars_of(raw);
    let mut good = 1 <= x.len() && x.len() <= 8 && 'a' <= x[0] && x[0] <= 'z';
    let mut i: usize = 0;
    while i < x.len()
        invariant
            x@ == raw@,
            i <= x.len(),
            good <==> 1 <= x.len() <= 8 && 'a' <= x@[0] <= 'z' && forall|j: int|
                0 <= j < i ==> 'a' <= #[trigger] x@[j] <= 'z' || text::is_digit(x@[j]),
        decreases x.len() - i,
    {
        let c = x[i];
        if !(('a' <= c && c <= 'z') || text::digit(c)) {
            assert(!('a' <= x@[i as int] <= 'z' || text::is_digit(x@[i as int])));
            good = false;
        }
        i += 1;
    }
    if good {
        Ok(raw.to_owned())
    } else {
        Err(text::cat3("id_prefix `", raw, "` must match ^[a-z][a-z0-9]{0,7}$"))
    }
}

/// What a list is sorted by.
#[derive(Debug, Clone, Copy, PartialEq, Eq, Structural)]
pub enum SortField {
    Rank,
    Priority,
    Created,
    Updated,
    Id,
    Status,
    Type,
}

impl SortField {
    /// The word for a sort field.
    pub open spec fn word(self) -> Seq<char> {
        match self {
            SortField::Rank => "rank"@,
            SortField::Priority => "priority"@,
            SortField::Created => "created"@,
            SortField::Updated => "updated"@,
            SortField::Id => "id"@,
            SortField::Status => "status"@,
            SortField::Type => "type"@,
        }
    }

    pub fn as_str(self) -> (r: &'static str)
        ensures
            r@ == self.word(),
    {
        match self {
            SortField::Rank => "rank",
            SortField::Priority => "priority",
            SortField::Created => "created",
            SortField::Updated => "updated",
            SortField::Id => "id",
            SortField::Status => "status",
            SortField::Type => "type",
        }
    }
}

/// The order of a list: a field, and which way.
#[derive(Debug, Clone, Copy, PartialEq, Eq, Structural)]
pub struct Order {
    pub field: SortField,
    pub desc: bool,
}

impl Order {
    /// The word for the direction.
    pub open spec fn dir_word(self) -> Seq<char> {
        if self.desc {
            "desc"@
        } else {
            "asc"@
        }
    }

    pub fn dir_str(self) -> (r: &'static str)
        ensures
            r@ == self.dir_word(),
    {
        if self.desc {
            "desc"
        } else {
            "asc"
        }
    }
}

/// The sort field that a word stands for.
pub open spec fn sort_field_of(raw: Seq<char>) -> Option<SortField> {
    if raw == "rank"@ {
        Some(SortField::Rank)
    } else if raw == "priority"@ {
        Some(SortField::Priority)
    } else if raw == "created"@ {
        Some(SortField::Created)
    } else if raw == "updated"@ {
        Some(SortField::Updated)
    } else if raw == "id"@ {
        Some(SortField::Id)
    } else if raw == "status"@ {
        Some(SortField::Status)
    } else if raw == "type"@ {
        Some(SortField::Type)
    } else {
        None
    }
}

/// Reads the word for a sort field.
pub fn parse_sort_field(raw: &str) -> (r: Option<SortField>)
    ensures
        r == sort_field_of(raw@),
{
    if text::same(raw, "rank") {
        Some(SortField::Rank)
    } else if text::same(raw, "priority") {
        Some(SortField::Priority)
    } else if text::same(raw, "created") {
        Some(SortField::Created)
    } else if text::same(raw, "updated") {
        Some(SortField::Updated)
    } else if text::same(raw, "id") {
        Some(SortField::Id)
    } else if text::same(raw, "status") {
        Some(SortField::Status)
    } else if text::same(raw, "type") {
        Some(SortField::Type)
    } else {
        None
    }
}

/// The order that `--sort` and `--desc` ask for: by rank when no field is named.
pub open spec fn order_named(sort: Option<Seq<char>>, desc: bool) -> Result<Order, ErrorView> {
    match sort {
        None => Ok(Order { field: SortField::Rank, desc }),
        Some(word) => match sort_field_of(word) {
            Some(field) => Ok(Order { field, desc }),
            None => Err(
                invalid_field(
                    "sort"@,
                    "expected rank|priority|created|updated|id|status|type, got `"@ + word + "`"@,
                ),
            ),
        },
    }
}

/// Decodes `--sort`/`--desc`.
pub fn order_of(sort: Option<&str>, desc: bool) -> (r: Result<Order, CloveError>)
    ensures
        match r {
            Ok(o) => order_named(text::opt_view(sort), desc) == Ok::<Order, ErrorView>(o),
            Err(e) => order_named(text::opt_view(sort), desc) == Err::<Order, ErrorView>(
                e.deep_view(),
            ),
        },
{
    match sort {
        None => Ok(Order { field: SortField::Rank, desc }),
        Some(word) => match parse_sort_field(word) {
            Some(field) => Ok(Order { field, desc }),
            None => Err(
                invalid(
                    "sort",
                    text::cat3(
                        "expected rank|priority|created|updated|id|status|type, got `",
                        word,
                        "`",
                    ),
                ),
            ),
        },
    }
}

/// Numbers spelled out.
pub open spec fn spelled(v: Seq<u8>) -> Seq<Seq<char>> {
    Seq::new(v.len(), |i: int| text::decimal(v[i] as nat))
}

/// The numbers, spelled out for the shared filter parser, which takes words.
pub fn spell(v: &Vec<u8>) -> (r: Vec<String>)
    ensures
        r.deep_view() == spelled(v@),
{
    let mut out: Vec<String> = Vec::new();
    let mut i: usize = 0;
    while i < v.len()
        invariant
            i <= v.len(),
            out.len() == i,
            forall|j: int| 0 <= j < i ==> (#[trigger] out@[j])@ == text::decimal(v@[j] as nat),
        decreases v.len() - i,
    {
        out.push(text::decimal_of(v[i] as u64));
        i += 1;
    }
    assert(out.deep_view() =~= spelled(v@));
    out
}

impl FilterArgs {
    /// The requested ordering.
    pub fn order(&self) -> (r: Result<Order, CloveError>)
        ensures
            match r {
                Ok(o) => order_named(self.sort.deep_view(), self.desc) == Ok::<Order, ErrorView>(o),
                Err(e) => order_named(self.sort.deep_view(), self.desc) == Err::<Order, ErrorView>(
                    e.deep_view(),
                ),
            },
    {
        order_of(crate::registry::install::borrowed(&self.sort), self.desc)
    }

    /// The priorities that are asked for, as words.
    pub fn priority_words(&self) -> (r: Vec<String>)
        ensures
            r.deep_view() == spelled(self.priority@),
    {
        spell(&self.priority)
    }
}

/// A list is sorted by the field whose word was given, and by no other; each field has a word
/// of its own.
pub proof fn law_sort_fields_read_back(raw: Seq<char>)
    ensures
        sort_field_of(raw) matches Some(f) ==> f.word() == raw,
        forall|f: SortField| sort_field_of(#[trigger] f.word()) == Some(f),
        order_named(Some(raw), true) matches Ok(o) ==> o.desc && o.field.word() == raw,
        order_named(Some(raw), false) matches Ok(o) ==> !o.desc && o.field.word() == raw,
        order_named(None, true) == Ok::<Order, ErrorView>(
            Order { field: SortField::Rank, desc: true },
        ),
        order_named(None, false) == Ok::<Order, ErrorView>(
            Order { field: SortField::Rank, desc: false },
        ),
{
    reveal_strlit("rank");
    reveal_strlit("priority");
    reveal_strlit("created");
    reveal_strlit("updated");
    reveal_strlit("id");
    reveal_strlit("status");
    reveal_strlit("type");
    assert("rank"@[0] != "type"@[0]);
    assert("created"@[0] != "updated"@[0]);
    assert("rank"@ != "type"@ && "created"@ != "updated"@);
    assert("rank"@.len() == 4 && "priority"@.len() == 8 && "created"@.len() == 7 && "id"@.len()
        == 2 && "status"@.len() == 6);
    assert forall|f: SortField| sort_field_of(#[trigger] f.word()) == Some(f) by {
        match f {
            SortField::Rank => {},
            SortField::Priority => {},
            SortField::Created => {},
            SortField::Updated => {},
            SortField::Id => {},
            SortField::Status => {},
            SortField::Type => {},
        }
    }
}

} // verus!
