//! `clove agent-doc`: a self-contained, deterministic usage document for agents, with an
//! embedded schema-version marker that `--check` can validate.

use vstd::prelude::*;

use crate::error::{invalid, invalid_field, CloveError, ErrorView};
use crate::json::{law_distinct_pairs_are_members, num, number, obj, object, Json, JsonView};
use crate::output::{
    meta_without_warnings, pairs, success, success_envelope,
    warnings_meta, Out, OutView,
};
use crate::plugin::CURRENT_SCHEMA_VERSION;
use crate::text;

verus! {

/// The document up to where the schema version stands in it.
pub const HEAD: &'static str = "# clove for agents\n\
\n\
clove is a git-native, dependency-aware work-item tracker. Plain Markdown +\n\
YAML-frontmatter files under `.clove/issues/` are the source of truth. Pass\n\
`--format json` (or set `CLOVE_FORMAT=json`) to get machine output on stdout.\n\
\n\
## JSON envelope\n\
\n\
Every JSON response is `{ \"v\": 1, \"ok\": <bool>, ... }`:\n\
- success: `{ \"v\":1, \"ok\":true, \"data\": <value>, \"_meta\": {...} }`\n\
- error:   `{ \"v\":1, \"ok\":false, \"error\": { \"code\": <STR>, \"message\": <STR>, \"exit\": <N> } }`\n\
\n\
`_meta` is described by the published JSON Schemas under\n\
`docs/json-schema/v1/` (`item-list.json` for every list command,\n\
`comment-list.json`, `stats.json`, and `{ \"warnings\": [] }` for the\n\
single-object responses), so a key like `_meta.limit` — where `0` means\n\
*unlimited* — is readable from the schema rather than by experiment. Those\n\
schemas set `additionalProperties: false`: a new `_meta` key is documented\n\
before it ships.\n\
\n\
The item `schema` version is currently **";

/// The document from there on.
pub const TAIL: &'static str = "**. Re-read this document if it\n\
changes (`clove agent-doc --check --file <path>` verifies a saved copy).\n\
\n\
## Exit codes\n\
\n\
| code | meaning |\n\
|------|---------|\n\
| 0 | success |\n\
| 1 | usage / bad arguments |\n\
| 2 | item not found |\n\
| 3 | dependency cycle |\n\
| 4 | validation error |\n\
| 5 | i/o or missing `.clove/`; also `REGISTRY_ERROR` — the plugin registry, `cargo` or `git` could not be reached |\n\
| 6 | index error |\n\
| 7 | daemon error |\n\
\n\
## Commands\n\
\n\
- `clove init [--prefix STR] [--merge-driver]` — create `.clove/`.\n\
- `clove setup [--global] [--dry-run]` — register the `clove mcp` server (+ tool\n\
  permissions) with the coding assistant and write `CLOVE.md` agent directives.\n\
- `clove new <title> [--type T] [-p N] [-l LABEL]... [--dep ID]... [--parent ID] [-a WHO] [-b TEXT]`\n\
- `clove show <id> [--fields LIST] [--compact]` — one item. `ready`/`blocked_by` are always computed (`-v` is accepted but no longer needed for them).\n\
- `clove edit <id> [--field KEY=VALUE]...` / `clove set <id> KEY=VALUE...`\n\
- `clove status <id> <open|in_progress|closed>` (aliases `start`, `close`).\n\
- `clove label <id> <add|rm> <label>`, `clove assign <id> <who|--clear>`, `clove priority <id> <0-4>`.\n\
- `clove dep add <id> <dep-id>` / `dep rm` / `dep tree <id> [--depth N|--full] [--flat]` / `dep cycle [--fail-on-cycle]`.\n\
- `clove ready` / `clove blocked` — work queues (filters: `--status --type --label --assignee --priority --q`; also `--sort --desc --limit --offset --fields --compact`).\n\
- `clove ls` / `clove query [--filter JSON]` — list/query (`--sort`, `--desc`, `--fields`, `--limit`, `--offset`).\n\
- `ls`, `ready` and `blocked` take the same repeatable filter flags. `--status`, `--type` and `--priority` repeat as **any of** (`--status open --status in_progress`); `--label` repeats as **all of** (`--label area:core --label area:ios` needs both); `--assignee` is an exact match; `--q TEXT` is a case-insensitive substring over the **id, title, and labels** only — it never reads the body, so it is a filter, not a search. Omitting a filter does not constrain. `_meta.filters` echoes the parsed set, canonicalized (`--status started` comes back as `in_progress`). `clove query` takes the same filter *set* but only as JSON (`--filter '{\"status\":[\"open\",\"in_progress\"]}'`), not as flags. An unknown filter value is a `VALIDATION_ERROR` (exit 4) rather than an empty list (`--priority 9`, `--status bogus`); a value of the wrong type is still an argument-parse error (exit 1), so `--priority abc` never reaches clove.\n\
- `clove query --filter JSON` takes the same filters as JSON, each accepting one value or a list: `{\"status\": [\"open\", \"in_progress\"], \"label\": [\"area:core\", \"area:ios\"], \"priority\": [0, 1], \"q\": \"login\"}`.\n\
- Every list read (`ls`, `query`, `ready`, `blocked`, `search`) takes the same `--limit`/`--offset`: no flag caps at 100, `--limit 0` returns everything, `_meta.total` is always the full match count and `_meta.limit` echoes the one in force.\n\
- They also take the same `--sort <rank|priority|created|updated|id|status|type>` and `--desc`. The default is `rank` — priority, then dependency order, then id — except on `search`, whose default is relevance (title hits, then labels, then body); naming a field there replaces that ranking entirely. `status` sorts open → in_progress → closed and `type` sorts bug → feature → chore → docs → epic (declared order, not alphabetical). Every order ends in an id tiebreak, so paging with `--offset` is stable. `_meta.sort`/`_meta.dir` echo what was applied. Prefer `--sort updated --desc --limit N` over pulling the store and sorting yourself.\n\
- `clove comment <id> <message>` / `clove comments <id> [--limit N] [--skip-newest N]` — `--limit` keeps the *newest* N (default 100, `--limit 0` for all); `--skip-newest` pages back into older ones. `_meta.total` is the full thread length.\n\
- `clove search <text> [--sort FIELD] [--desc] [--limit N] [--offset N] [--fields LIST] [--compact]` — searches **titles, labels, and bodies**, relevance-ranked by default (title hits, then labels, then body).\n\
- Search matches a **case-insensitive substring**, not whole words: `clove search core` finds a body reading `the corepart word` and a label `area:core` alike, and `clove search icode` finds the label `ünicode-tag`. Case folding is full Unicode, so `Ünicode` finds `ünicode-tag`. The text is a literal — there is no query language, so `clove search '\"a b\" OR c*'` looks for that exact character sequence, and quoting/wildcards buy you nothing.\n\
- `clove search` always scans the item files: it has no index or daemon fast path, so `_meta.source` is always `files`, `--no-index` changes nothing, and the same query gives the same ids whether or not `.clove/index.db` exists or a daemon is running. It reads every body, so prefer `--q` on `ls`/`ready` when id/title/labels are enough.\n\
- `clove stats [--top N] [--no-epics] [--snapshot] [--history [--since RFC3339] [--limit N] [--offset N]]` — work-item analytics (counts by status/type/priority/assignee/label, ready/blocked, cycles, epic rollups, throughput) plus daemon/index telemetry. `--snapshot` persists to the index's durable history (`.clove/index.db`); `--history` replays the series.\n\
- `--since`/`--limit`/`--offset` window the **history series** and require `--history`: a live report is a single object with nothing to page, so passing one without it is a usage error (exit 1) rather than a flag that is silently dropped.\n\
- `clove reindex` — rebuild the SQLite index. `clove doctor [--fix] [--strict]` — health check.\n\
- `--no-index` (force a file scan) and `--deep` (thorough index staleness check) are global flags acted on only by the commands that choose a read tier — `ls`, `ready`, `blocked`, `query`, `stats`, `doctor`, `dep`, `serve` — and by plugins (`$CLOVE_NO_INDEX`/`$CLOVE_DEEP`). They are accepted and inert everywhere else, which their `--help` says; `--no-index` never changes an *answer*, only which tier produced it.\n\
- `clove version` — `{ clove, schema, git_hash, build_date }`.\n\
\n\
## Interop (import / export / merge)\n\
\n\
- `clove export json` / `clove export jsonl [--out FILE]` — dump all items as a\n\
  JSON envelope (`data` array) or one item per line (NDJSON), in clove's native\n\
  item schema — the exact inverse of `import json|jsonl`. (A Beads-native export\n\
  is the `beads` plugin, `clove export beads`, not this built-in.)\n\
- `clove import json <file>` / `clove import jsonl <file> [--dry-run]\n\
  [--overwrite]` — built-in native restore, the inverse of `export json|jsonl`:\n\
  recreates items preserving their ids (existing ids skipped unless\n\
  `--overwrite`). A full `export → import` round-trip.\n\
- `clove import tk <.tickets-dir> [--dry-run]` — import tk tickets (needs the\n\
  `clove-import-tk` plugin; `clove plugin install import-tk`).\n\
- `clove import beads <issues.jsonl> [--dry-run]` — import a Beads JSONL export\n\
  (needs the `clove-import-beads` plugin).\n\
- `clove sync github <owner/repo> [--dry-run] [--prefer P] [--no-comments]` —\n\
  two-way GitHub sync (pull + push + comments in one pass; conflict policy\n\
  `newer|local|remote|manual`). Needs the `clove-sync-github` plugin\n\
  (`clove plugin install sync-github`) + a token via `GITHUB_TOKEN` or\n\
  `gh auth token`; without the plugin it exits 4 with an install hint. The\n\
  single GitHub path (replaces the old\n\
  one-way `import github` / `export github`).\n\
- File imports are idempotent on `external_ref`: re-running skips already-imported\n\
  items. `--dry-run` reports `{ would_create, would_skip, conflicts }` and\n\
  writes nothing.\n\
- `clove plugin list [--all] [--refresh]` — installed plugins (name, version,\n\
  what they run as, host<->plugin compat `status`). Plain `list` is a pure\n\
  filesystem walk and never uses the network; `--all` additionally lists plugins\n\
  published to crates.io (discovered as the reverse dependencies of\n\
  `clove-plugin`), cached for 24h. If discovery fails or the registry is not\n\
  published yet, the installed list still prints and the reason appears in\n\
  `_meta.warnings` and the command still exits 0 — a registry outage is\n\
  never an error, so do not treat a missing Available section as a failure.\n\
- `clove plugin install <name> [--yes] [--force] [--strict] [--allow-yanked]` —\n\
  build and install a published plugin. This compiles and runs third-party code,\n\
  so it always requires an explicit decision: a non-interactive run (no TTY, or\n\
  `--format json`) **refuses** unless `--yes` is given. A bare provider name is\n\
  resolved by constructing the candidate crate names; if several exist the\n\
  command refuses and asks for the exact crate rather than guessing.\n\
- `clove plugin install --git <url> [--tag T | --rev R | --branch B] [--package P]`\n\
  — install from any git forge (plain `git`, not `gh`). The repository is cloned\n\
  shallowly and inspected: a package counts as a plugin only if it depends on\n\
  `clove-plugin`, builds a `clove-*` binary, AND is publishable. Several\n\
  candidates means `--package` is required rather than clove guessing. Without\n\
  `--tag`/`--rev` it warns that the default branch moves.\n\
- `clove plugin uninstall <name>` — remove a plugin clove installed. Needs no\n\
  network: the package is resolved from cargo's own bookkeeping. A plugin\n\
  installed by something else (e.g. `cargo install` into ~/.cargo/bin) is\n\
  reported as unmanaged rather than failing obscurely.\n\
- `clove plugin update [<name>] [--all] [--yes]` — re-resolve installed plugins.\n\
  Shows each old -> new version before changing anything, and only re-resolves\n\
  crates.io installs (a git-sourced plugin is left alone, not silently swapped\n\
  for a same-named crate — reinstall it with `plugin install --git <url> --force`\n\
  to update it). The payload separates `checked` from `skipped` for that reason,\n\
  and moves only to a strictly greater STABLE version: a pre-release is reported\n\
  and held, and a registry offering an older version than the installed one is\n\
  never treated as an upgrade. Anything refused (yanked, no longer a\n\
  `clove-plugin` dependent, failed build, failed rollback) is reported in\n\
  `_meta.warnings`, so exit 0 with an empty `updated` is not by itself a\n\
  clean bill of health.\n\
- `clove plugin search <text> [--refresh]` — filter published plugins by\n\
  name/description. When that filter matches nothing, the candidate crate\n\
  names are constructed and probed directly, so a published plugin is found\n\
  even when the cached set is stale or discovery is unavailable.\n\
- `clove init --merge-driver` installs a git merge driver for\n\
  `.clove/issues/*.md`. On `git merge`, same-value scalar edits and dependency/\n\
  label set-unions auto-resolve; only genuinely divergent edits conflict.\n\
\n\
## Git integration\n\
\n\
- Files are the source of truth and travel with the repo. After a `git merge` or\n\
  `git pull` the SQLite index refreshes automatically on the next command\n\
  (staleness is detected and the index reindexed transparently), so reads stay\n\
  correct without a manual `clove reindex`.\n\
\n\
## Daemon (optional)\n\
\n\
- `clove daemon start|stop|status` runs an optional background process that keeps\n\
  the index hot (file-watch incremental indexing). It is never required — every\n\
  command works identically without it; when it is running, reads are served from\n\
  its hot index and report `_meta.source = \"daemon\"`.\n\
- Opt-in `[daemon] git_sync = true` auto-commits clean item edits (never pushes).\n\
- A running daemon auto-records `clove stats` history points on a timer\n\
  (`[daemon] stats_snapshot_min`, default 60; `0` disables) — replay with\n\
  `clove stats --history`.\n\
- `clove doctor --fix` cleans up a stale daemon socket/pid left by a crash.\n\
\n\
## MCP server (for agents)\n\
\n\
- `clove mcp` runs a Model Context Protocol server over stdio (newline-delimited\n\
  JSON-RPC), exposing clove as native tools so an agent need not shell out:\n\
  `clove_ready`, `clove_blocked`, `clove_list`, `clove_show`, `clove_search`,\n\
  `clove_comments`, `clove_dep_tree`, `clove_stats` (reads) and `clove_new`, `clove_status`,\n\
  `clove_edit`, `clove_comment`, `clove_dep_add`, `clove_dep_remove`, `clove_set_parent`\n\
  (writes). Configure it as an MCP server with command `clove` and arg `mcp`,\n\
  launched in the repository.\n\
- Tool results are the same item JSON as the CLI's, with two differences worth\n\
  knowing: reads are **compacted by default** (null and empty-list keys, plus\n\
  `schema`, are omitted — pass `compact: false` for the full shape), and the\n\
  read tools' default `limit` is **50**, not the CLI's 100. `limit: 0` is\n\
  unlimited on both, and every list result carries `total`/`returned`/`limit`.\n\
- `clove_list`, `clove_ready`, `clove_blocked`, `clove_search` and\n\
  `clove_comments` advertise an **`outputSchema`** in `tools/list` (published as\n\
  `docs/json-schema/v1/mcp-item-page.json` / `mcp-comment-page.json`), so the\n\
  page shape — `{total, returned, offset, limit, sort, dir, filters?, source,\n\
  items}`, with `skip_newest` in place of `offset` on comments — can be read\n\
  rather than discovered. `structuredContent` validates against it; the identical\n\
  JSON is also in `content[0].text` for clients that do not read structured\n\
  results, so parse whichever you prefer, not both.\n\
- `fields` and `compact` are accepted by every read tool, and by `clove ls`,\n\
  `ready`, `blocked`, `query`, `search`, and `show` as `--fields`/`--compact`.\n\
  Use them: a two-field projection cuts a list result by roughly 80%.\n\
- `sort` and `desc` are accepted by `clove_ready`, `clove_blocked`, `clove_list`,\n\
  and `clove_search`, with the same vocabulary and defaults as the CLI's\n\
  `--sort`/`--desc`. `{\"sort\": \"updated\", \"desc\": true, \"limit\": 10}` answers\n\
  \"what changed most recently\" in one call instead of pulling the store.\n\
- `status`, `type`, `label` and `priority` on `clove_ready`/`clove_blocked`/\n\
  `clove_list` each accept **one value or a list**, with the CLI's meaning:\n\
  status/type/priority are any-of, labels are all-of. `q` is there too.\n\
  `{\"status\": [\"open\", \"in_progress\"], \"label\": [\"area:core\", \"area:ios\"]}`\n\
  is one call for a question that used to need several. The result object\n\
  carries a `filters` key echoing the parsed set.\n\
- `q` (on the filtering tools) and `clove_search` are different questions, not\n\
  two spellings of one. `q` is a filter over **id, title, and labels**, composes\n\
  with the other filters, and never reads a body; `clove_search` reads **titles,\n\
  labels, and bodies**, ranks the hits, and takes no field filters. Both match a\n\
  case-insensitive Unicode *substring*. Reach for `q` to narrow a list and\n\
  `clove_search` to find where something was written.\n\
- Writes are coordinated through a running daemon when present (so concurrent\n\
  agents share one writer) and fall back to direct file writes otherwise.\n\
\n\
## Conventions\n\
\n\
- Labels are case-insensitive and canonicalized (`Area:iOS` → `area:ios`).\n\
- Priority is 0 (highest) – 4, default 2. Types: bug, feature, chore, docs, epic.\n\
- Dependencies are hard/blocking; `ready` = open with all deps closed and none missing.\n";

/// The marker line on top of a document.
pub open spec fn marker_of(version: Seq<char>) -> Seq<char> {
    "<!-- generated-by: clove v"@ + version + " schema:"@ + text::decimal(
        CURRENT_SCHEMA_VERSION as nat,
    ) + " -->"@
}

/// The marker line on top of a document.
pub fn marker(version: &str) -> (r: String)
    ensures
        r@ == marker_of(version@),
{
    let schema = text::decimal_of(CURRENT_SCHEMA_VERSION as u64);
    text::cat5("<!-- generated-by: clove v", version, " schema:", schema.as_str(), " -->")
}

/// The document.
pub open spec fn document(version: Seq<char>) -> Seq<char> {
    marker_of(version) + "\n"@ + HEAD@ + text::decimal(CURRENT_SCHEMA_VERSION as nat) + TAIL@
}

/// The document. It is the same on every run of one version.
pub fn generate(version: &str) -> (r: String)
    ensures
        r@ == document(version@),
{
    let top = marker(version);
    let schema = text::decimal_of(CURRENT_SCHEMA_VERSION as u64);
    text::cat5(top.as_str(), "\n", HEAD, schema.as_str(), TAIL)
}

/// The document as data.
pub open spec fn document_object(version: Seq<char>) -> JsonView {
    obj(
        seq![
            ("schema"@, num(CURRENT_SCHEMA_VERSION as int)),
            ("markdown"@, JsonView::Text(document(version))),
        ],
    )
}

/// What is printed of the document in a JSON format.
pub fn emit_json(version: &str) -> (r: Vec<Out>)
    ensures
        r.deep_view() == seq![
            OutView::Json(success(document_object(version@), warnings_meta(Seq::empty()))),
        ],
{
    let v: Vec<(String, Json)> = vec![
        ("schema".to_owned(), number(CURRENT_SCHEMA_VERSION as u64)),
        ("markdown".to_owned(), Json::Text(generate(version))),
    ];
    assert(pairs(v@) =~= seq![
        ("schema"@, num(CURRENT_SCHEMA_VERSION as int)),
        ("markdown"@, JsonView::Text(document(version@))),
    ]);
    let line = Out::Json(success_envelope(object(v), meta_without_warnings()));
    let ghost view = line.deep_view();
    let out: Vec<Out> = vec![line];
    assert(out.deep_view() =~= seq![view]);
    out
}

// ---- Reading the marker -------------------------------------------------------

/// The first of the lines that holds a marker.
pub open spec fn marker_line(lines: Seq<Seq<char>>) -> Option<Seq<char>>
    decreases lines.len(),
{
    if lines.len() == 0 {
        None
    } else if text::occurs(lines[0], "generated-by: clove"@) {
        Some(lines[0])
    } else {
        marker_line(lines.drop_first())
    }
}

/// Where `p` stands in `s` for the first time from `i` on.
pub open spec fn position(s: Seq<char>, p: Seq<char>, i: int) -> Option<int>
    decreases s.len() - i,
{
    if text::occurs_at(s, p, i) {
        Some(i)
    } else if i >= s.len() {
        None
    } else {
        position(s, p, i + 1)
    }
}

/// The digits that `s` begins with.
pub open spec fn digit_run(s: Seq<char>) -> Seq<char>
    decreases s.len(),
{
    if s.len() > 0 && text::is_digit(s[0]) {
        seq![s[0]] + digit_run(s.drop_first())
    } else {
        Seq::empty()
    }
}

/// The schema version in a document's marker: the digits behind the first `schema:` of
/// the marker line, if they are a number of 32 bits.
pub open spec fn found_schema(contents: Seq<char>) -> Option<u32> {
    match marker_line(text::text_lines(contents)) {
        None => None,
        Some(line) => match position(line, "schema:"@, 0) {
            None => None,
            Some(i) => {
                let digits = digit_run(line.skip(i + 7));
                if digits.len() > 0 && text::digits_value(digits) <= u32::MAX {
                    Some(text::digits_value(digits) as u32)
                } else {
                    None
                }
            },
        },
    }
}

proof fn lemma_position_at(s: Seq<char>, p: Seq<char>, i: int, n: int)
    requires
        0 <= i <= n,
        text::occurs_at(s, p, n),
        forall|j: int| i <= j < n ==> !text::occurs_at(s, p, j),
    ensures
        position(s, p, i) == Some(n),
    decreases n - i,
{
    if i < n {
        lemma_position_at(s, p, i + 1, n);
    }
}

proof fn lemma_position_nowhere(s: Seq<char>, p: Seq<char>, i: int)
    requires
        0 <= i,
        !text::occurs(s, p),
    ensures
        position(s, p, i) is None,
    decreases s.len() - i,
{
    assert(!text::occurs_at(s, p, i));
    if i < s.len() {
        lemma_position_nowhere(s, p, i + 1);
    }
}

fn leading_digits(s: &str, from: usize) -> (r: Vec<char>)
    requires
        from <= s@.len(),
    ensures
        r@ == digit_run(s@.skip(from as int)),
{
    let x = text::chars_of(s);
    let ghost all = s@.skip(from as int);
    let mut out: Vec<char> = Vec::new();
    let mut i: usize = from;
    assert(out@ + digit_run(all) =~= digit_run(all));
    while i < x.len() && text::digit(x[i])
        invariant
            x@ == s@,
            from <= i <= x.len(),
            out@ + digit_run(s@.skip(i as int)) == digit_run(all),
        decreases x.len() - i,
    {
        let ghost here = s@.skip(i as int);
        assert(here[0] == x@[i as int]);
        assert(here.drop_first() =~= s@.skip(i + 1));
        let ghost before = out@;
        out.push(x[i]);
        assert(before + (seq![here[0]] + digit_run(s@.skip(i + 1))) =~= out@ + digit_run(
            s@.skip(i + 1),
        ));
        i += 1;
    }
    assert(digit_run(s@.skip(i as int)) =~= Seq::<char>::empty());
    assert(out@ =~= digit_run(all));
    out
}

/// Reads the schema version out of a document's marker.
pub fn extract_schema(contents: &str) -> (r: Option<u32>)
    ensures
        r == found_schema(contents@),
{
    let lines = text::lines(contents);
    let ghost all = lines.deep_view();
    let mut i: usize = 0;
    assert(all.skip(0) =~= all);
    while i < lines.len()
        invariant
            i <= lines.len(),
            all == lines.deep_view(),
            all == text::text_lines(contents@),
            marker_line(all) == marker_line(all.skip(i as int)),
        decreases lines.len() - i,
    {
        let line = lines[i].as_str();
        assert(all.skip(i as int)[0] == line@);
        assert(all.skip(i as int).drop_first() =~= all.skip(i + 1));
        if text::contains(line, "generated-by: clove") {
            proof {
                reveal_strlit("schema:");
            }
            return match text::find(line, "schema:") {
                None => {
                    proof {
                        lemma_position_nowhere(line@, "schema:"@, 0);
                    }
                    None
                },
                Some(k) => {
                    proof {
                        lemma_position_at(line@, "schema:"@, 0, k as int);
                    }
                    let len = line.unicode_len();
                    assert(k + 7 <= len);
                    let digits = leading_digits(line, k + 7);
                    proof {
                        lemma_run_is_digits(line@.skip(k + 7));
                    }
                    match text::parse_digits(&digits, u32::MAX as u64) {
                        Some(n) => Some(n as u32),
                        None => None,
                    }
                },
            };
        }
        i += 1;
    }
    None
}

proof fn lemma_run_is_digits(s: Seq<char>)
    ensures
        forall|i: int| 0 <= i < digit_run(s).len() ==> text::is_digit(#[trigger] digit_run(s)[i]),
    decreases s.len(),
{
    if s.len() > 0 && text::is_digit(s[0]) {
        lemma_run_is_digits(s.drop_first());
        let rest = digit_run(s.drop_first());
        assert forall|i: int| 0 <= i < digit_run(s).len() implies text::is_digit(
            #[trigger] digit_run(s)[i],
        ) by {
            if i > 0 {
                assert(digit_run(s)[i] == rest[i - 1]);
            }
        }
    }
}

/// Why a saved document does not pass the check.
pub open spec fn stale(contents: Seq<char>) -> Option<ErrorView> {
    match found_schema(contents) {
        None => Some(
            invalid_field(
                "agent-doc"@,
                "no `generated-by: clove ... schema:N` marker found"@,
            ),
        ),
        Some(n) => if n != CURRENT_SCHEMA_VERSION {
            Some(
                invalid_field(
                    "agent-doc"@,
                    "stale: doc schema "@ + text::decimal(n as nat) + ", binary schema "@
                        + text::decimal(CURRENT_SCHEMA_VERSION as nat),
                ),
            )
        } else {
            None
        },
    }
}

/// Verifies that a saved document's schema version is this one's.
pub fn check(contents: &str) -> (r: Result<(), CloveError>)
    ensures
        crate::error::verdict(r) == stale(contents@),
{
    match extract_schema(contents) {
        None => Err(
            invalid(
                "agent-doc",
                "no `generated-by: clove ... schema:N` marker found".to_owned(),
            ),
        ),
        Some(n) => if n != CURRENT_SCHEMA_VERSION {
            let found = text::decimal_of(n as u64);
            let mine = text::decimal_of(CURRENT_SCHEMA_VERSION as u64);
            Err(
                invalid(
                    "agent-doc",
                    text::cat4(
                        "stale: doc schema ",
                        found.as_str(),
                        ", binary schema ",
                        mine.as_str(),
                    ),
                ),
            )
        } else {
            Ok(())
        },
    }
}

/// `--check` needs a file to check.
pub fn check_target<'a>(file: &'a Option<String>) -> (r: Result<&'a str, CloveError>)
    ensures
        match r {
            Ok(path) => file.deep_view() == Some(path@),
            Err(e) => file is None && e.deep_view() == invalid_field(
                "file"@,
                "--check requires --file PATH"@,
            ),
        },
{
    match file {
        Some(path) => Ok(path.as_str()),
        None => Err(invalid("file", "--check requires --file PATH".to_owned())),
    }
}

// ---- The check passes on what is generated ------------------------------------

proof fn lemma_first_piece(a: Seq<char>, rest: Seq<char>)
    requires
        !a.contains('\n'),
    ensures
        text::pieces(a.push('\n') + rest, '\n').len() >= 2,
        text::pieces(a.push('\n') + rest, '\n')[0] == a,
    decreases rest.len(),
{
    let s = a.push('\n') + rest;
    if rest.len() > 0 {
        lemma_first_piece(a, rest.drop_last());
        assert(s.drop_last() =~= a.push('\n') + rest.drop_last());
    } else {
        lemma_one_piece(a);
        assert(s =~= a.push('\n'));
        assert(s.drop_last() =~= a);
    }
}

proof fn lemma_one_piece(a: Seq<char>)
    requires
        !a.contains('\n'),
    ensures
        text::pieces(a, '\n') == seq![a],
    decreases a.len(),
{
    if a.len() > 0 {
        assert(a[a.len() - 1] == a.last());
        assert forall|c: char| a.drop_last().contains(c) implies a.contains(c) by {
            let i = choose|i: int| 0 <= i < a.drop_last().len() && a.drop_last()[i] == c;
            assert(a[i] == c);
        }
        lemma_one_piece(a.drop_last());
        assert(a.drop_last().push(a.last()) =~= a);
        assert(text::pieces(a, '\n') =~= seq![a]);
    } else {
        assert(a =~= Seq::<char>::empty());
        assert(text::pieces(a, '\n') =~= seq![a]);
    }
}

proof fn lemma_run_of_digits(d: Seq<char>, rest: Seq<char>)
    requires
        forall|i: int| 0 <= i < d.len() ==> text::is_digit(#[trigger] d[i]),
        rest.len() > 0 ==> !text::is_digit(rest[0]),
    ensures
        digit_run(d + rest) == d,
    decreases d.len(),
{
    let s = d + rest;
    if d.len() > 0 {
        assert(s[0] == d[0]);
        assert(s.drop_first() =~= d.drop_first() + rest);
        assert forall|i: int| 0 <= i < d.drop_first().len() implies text::is_digit(
            #[trigger] d.drop_first()[i],
        ) by {
            assert(d.drop_first()[i] == d[i + 1]);
        }
        lemma_run_of_digits(d.drop_first(), rest);
        assert(seq![d[0]] + d.drop_first() =~= d);
    } else {
        assert(s =~= rest);
        assert(digit_run(s) =~= d);
    }
}

/// A document tells the schema that its marker names, whatever stands behind the marker.
pub proof fn law_a_marker_tells_its_schema(version: Seq<char>, n: u32, rest: Seq<char>)
    requires
        !version.contains('\n'),
        !text::occurs(version, "schema:"@),
    ensures
        found_schema(
            ("<!-- generated-by: clove v"@ + version + " schema:"@ + text::decimal(n as nat)
                + " -->"@).push('\n') + rest,
        ) == Some(n),
{
    let front = "<!-- generated-by: clove v"@;
    let label = " schema:"@;
    let key = "schema:"@;
    let d = text::decimal(n as nat);
    let close = " -->"@;
    let m = front + version + label + d + close;
    reveal_strlit("<!-- generated-by: clove v");
    reveal_strlit(" schema:");
    reveal_strlit("schema:");
    reveal_strlit(" -->");
    reveal_strlit("generated-by: clove");
    reveal_strlit("\n");
    text::law_decimal_reads_back(n as nat);
    assert(!m.contains('\n')) by {
        assert forall|i: int| 0 <= i < m.len() implies m[i] != '\n' by {
            let a = front.len() as int;
            let b = a + version.len();
            let c = b + label.len();
            if i < a {
                assert(m[i] == front[i]);
            } else if i < b {
                assert(m[i] == version[i - a]);
            } else if i < c {
                assert(m[i] == label[i - b]);
            } else if i < c + d.len() {
                assert(m[i] == d[i - c]);
            } else {
                assert(m[i] == close[i - c - d.len()]);
            }
        }
    }
    lemma_first_piece(m, rest);
    let lines = text::text_lines(m.push('\n') + rest);
    assert(m.last() == '>');
    assert(lines[0] == m);
    assert(text::occurs_at(m, "generated-by: clove"@, 5)) by {
        assert(m.subrange(5, 24) =~= "generated-by: clove"@);
    }
    assert(text::occurs(m, "generated-by: clove"@));
    let at: int = front.len() as int + version.len() as int + 1;
    assert(text::occurs_at(m, key, at)) by {
        assert(m.subrange(at, at + 7) =~= key);
    }
    assert forall|j: int| 0 <= j < at implies !text::occurs_at(m, key, j) by {
        if text::occurs_at(m, key, j) {
            let w = m.subrange(j, j + 7);
            assert(w[0] == 's' && w[0] == m[j]);
            if j < front.len() {
                assert(m[j] == front[j]);
            } else {
                let k = j - front.len();
                if k + 7 <= version.len() {
                    assert(version.subrange(k, k + 7) =~= w);
                    assert(text::occurs_at(version, key, k));
                } else {
                    let gap = version.len() - k;
                    assert(w[gap] == m[at - 1]);
                    assert(m[at - 1] == label[0]);
                    assert(key[gap] != ' ');
                }
            }
        }
    }
    lemma_position_at(m, key, 0, at);
    assert(m.skip(at + 7) =~= d + close);
    lemma_run_of_digits(d, close);
}

/// A generated document passes its own check, for every version whose spelling has no
/// line end and no `schema:` in it.
pub proof fn law_generated_documents_pass_the_check(version: Seq<char>)
    requires
        !version.contains('\n'),
        !text::occurs(version, "schema:"@),
    ensures
        stale(document(version)) is None,
{
    let d = text::decimal(CURRENT_SCHEMA_VERSION as nat);
    let m = marker_of(version);
    let rest = HEAD@ + d + TAIL@;
    reveal_strlit("\n");
    assert(document(version) =~= m.push('\n') + rest);
    law_a_marker_tells_its_schema(version, CURRENT_SCHEMA_VERSION, rest);
}

proof fn lemma_marker_behind(a: Seq<Seq<char>>, b: Seq<Seq<char>>)
    requires
        forall|i: int| 0 <= i < a.len() ==> !text::occurs(#[trigger] a[i], "generated-by: clove"@),
    ensures
        marker_line(a) is None,
        marker_line(a + b) == marker_line(b),
    decreases a.len(),
{
    if a.len() > 0 {
        let rest = a.drop_first();
        assert forall|i: int| 0 <= i < rest.len() implies !text::occurs(
            #[trigger] rest[i],
            "generated-by: clove"@,
        ) by {
            assert(rest[i] == a[i + 1]);
        }
        lemma_marker_behind(rest, b);
        assert((a + b)[0] == a[0]);
        assert((a + b).drop_first() =~= rest + b);
    } else {
        assert(a + b =~= b);
    }
}

/// A document that was appended to other text is found: whatever whole lines stand before
/// it, as long as none of them holds a marker, it passes the check. Those lines alone hold no
/// schema.
pub proof fn law_an_appended_document_passes_the_check(before: Seq<char>, version: Seq<char>)
    requires
        before.len() == 0 || before.last() == '\n',
        forall|i: int|
            0 <= i < text::text_lines(before).len() ==> !text::occurs(
                #[trigger] text::text_lines(before)[i],
                "generated-by: clove"@,
            ),
        !version.contains('\n'),
        !text::occurs(version, "schema:"@),
    ensures
        found_schema(before) is None,
        found_schema(before + document(version)) == Some(CURRENT_SCHEMA_VERSION),
        stale(before + document(version)) is None,
{
    law_generated_documents_pass_the_check(version);
    text::law_lines_behind_lines(before, document(version));
    lemma_marker_behind(text::text_lines(before), text::text_lines(document(version)));
}

/// A document is stale exactly when it does not name the schema of this clove; the error shows
/// both.
pub proof fn law_a_document_of_another_schema_is_stale(contents: Seq<char>)
    ensures
        stale(contents) is None <==> found_schema(contents) == Some(CURRENT_SCHEMA_VERSION),
        found_schema(contents) matches Some(n) ==> (n != CURRENT_SCHEMA_VERSION ==> stale(contents)
            == Some(
            invalid_field(
                "agent-doc"@,
                "stale: doc schema "@ + text::decimal(n as nat) + ", binary schema "@
                    + text::decimal(CURRENT_SCHEMA_VERSION as nat),
            ),
        )),
{
}

/// The document begins with its marker, which names the version and the schema, and shows the
/// schema in its text.
pub proof fn law_a_document_begins_with_its_marker(version: Seq<char>)
    ensures
        text::begins(document(version), marker_of(version)),
        text::begins(marker_of(version), "<!-- generated-by: clove v"@ + version),
        text::occurs(
            document(version),
            HEAD@ + text::decimal(CURRENT_SCHEMA_VERSION as nat) + TAIL@,
        ),
{
    let m = marker_of(version);
    assert(document(version).take(m.len() as int) =~= m);
    let front = "<!-- generated-by: clove v"@ + version;
    assert(m.take(front.len() as int) =~= front);
    let inner = HEAD@ + text::decimal(CURRENT_SCHEMA_VERSION as nat) + TAIL@;
    assert(document(version) =~= (m + "\n"@) + inner + Seq::<char>::empty());
    text::lemma_occurs_between(m + "\n"@, inner, Seq::empty());
}

/// As data, the document comes with its schema.
pub proof fn law_the_document_is_handed_out_with_its_schema(version: Seq<char>)
    ensures
        document_object(version).member("schema"@) == Some(num(CURRENT_SCHEMA_VERSION as int)),
        document_object(version).member("markdown"@) == Some(JsonView::Text(document(version))),
{
    reveal_strlit("schema");
    reveal_strlit("markdown");
    let p = seq![
        ("schema"@, num(CURRENT_SCHEMA_VERSION as int)),
        ("markdown"@, JsonView::Text(document(version))),
    ];
    assert(document_object(version) == obj(p));
    assert(p[0].0 == "schema"@ && p[1].0 == "markdown"@);
    law_distinct_pairs_are_members(p);
}

} // verus!
