//! `clove init`: create the `.clove/` layout. Doing it again changes nothing.

use vstd::prelude::*;

use crate::context::{is_root_of, root_of};
use crate::json::{law_distinct_pairs_are_members, obj, object, string, Json, JsonView};
use crate::lines::{contains_line, has_line, is_plain_line, law_a_written_line_is_there};
use crate::output::{
    law_a_success_carries_its_data, meta_without_warnings, pairs, success, success_envelope,
    warnings_meta, Out, OutView, OutputFormat,
};
use crate::path::extends;
use crate::text;

verus! {

/// Where a repository is made: its root, and its `.clove/` directory.
#[derive(Debug, PartialEq, Eq)]
pub struct Location {
    pub root: String,
    pub clove_dir: String,
}

/// Chooses where the repository is made: in `--clove-dir`, whose parent is the root, or in
/// the current directory.
pub fn location(clove_dir: Option<&str>, cwd: &str) -> (r: Location)
    ensures
        match clove_dir {
            Some(dir) => r.clove_dir@ == dir@ && is_root_of(dir@, r.root@),
            None => r.root@ == cwd@ && extends(cwd@, ".clove"@, r.clove_dir@),
        },
{
    proof {
        reveal_strlit(".clove");
    }
    match clove_dir {
        Some(dir) => Location { root: root_of(dir), clove_dir: dir.to_owned() },
        None => Location { root: cwd.to_owned(), clove_dir: crate::path::join(cwd, ".clove") },
    }
}

/// The default configuration.
pub open spec fn config_text(prefix: Seq<char>) -> Seq<char> {
    "# clove configuration. See `clove agent-doc` for the full reference.\nconfig_schema = 1\nid_prefix = \""@
        + prefix
        + "\"\ndefault_type = \"feature\"\ndefault_format = \"human\"\n\n[index]\nauto_refresh = true\n\n[daemon]\ngit_sync = false\nwatch_debounce_ms = 200\n# Idle minutes before the daemon self-terminates (0 = never). Each clove\n# command resets this, so it only fires after a long gap of no activity.\nidle_shutdown_min = 240\n"@
}

/// Renders a default `config.toml` with the chosen id prefix.
pub fn render_config(prefix: &str) -> (r: String)
    ensures
        r@ == config_text(prefix@),
{
    text::cat3(
        "# clove configuration. See `clove agent-doc` for the full reference.\nconfig_schema = 1\nid_prefix = \"",
        prefix,
        "\"\ndefault_type = \"feature\"\ndefault_format = \"human\"\n\n[index]\nauto_refresh = true\n\n[daemon]\ngit_sync = false\nwatch_debounce_ms = 200\n# Idle minutes before the daemon self-terminates (0 = never). Each clove\n# command resets this, so it only fires after a long gap of no activity.\nidle_shutdown_min = 240\n",
    )
}

/// The configuration to write: none where there is one already.
pub fn config_to_write(exists: bool, prefix: Option<&str>, derived: &str) -> (r: Option<String>)
    ensures
        r.deep_view() == (if exists {
            None
        } else {
            Some(config_text(match prefix {
                Some(p) => p@,
                None => derived@,
            }))
        }),
{
    if exists {
        None
    } else {
        match prefix {
            Some(p) => Some(render_config(p)),
            None => Some(render_config(derived)),
        }
    }
}

/// The ignore file: an entry on each line.
pub fn gitignore(entries: &Vec<String>) -> (r: String)
    ensures
        r@ == text::joined(entries.deep_view(), "\n"@) + "\n"@,
{
    let all = text::join(entries, "\n");
    text::cat2(all.as_str(), "\n")
}

// ---- The merge driver ---------------------------------------------------------

/// The line that has git use the merge driver for item files.
pub const ATTRIBUTES_LINE: &'static str = ".clove/issues/*.md merge=clove-item";

/// The head of the merge driver's section in git's configuration.
pub const DRIVER_SECTION: &'static str = "[merge \"clove-item\"]";

/// The section that tells git how to run the merge driver.
pub const DRIVER_STANZA: &'static str = "\n[merge \"clove-item\"]\n\tname = clove item 3-way merge\n\tdriver = clove merge-driver %O %A %B %L\n";

/// A text that the next line can be written behind.
pub open spec fn ended(s: Seq<char>) -> Seq<char> {
    if s.len() > 0 && s.last() != '\n' {
        s.push('\n')
    } else {
        s
    }
}

/// What `.gitattributes` becomes; none where it already has the line.
pub open spec fn attributes_after(existing: Seq<char>) -> Option<Seq<char>> {
    if has_line(existing, ATTRIBUTES_LINE@) {
        None
    } else {
        Some(ended(existing) + ATTRIBUTES_LINE@ + seq!['\n'])
    }
}

/// Edits `.gitattributes`.
pub fn edit_attributes(existing: &str) -> (r: Option<String>)
    ensures
        r.deep_view() == attributes_after(existing@),
{
    if contains_line(existing, ATTRIBUTES_LINE) {
        return None;
    }
    let mut next = existing.to_owned();
    let n = existing.unicode_len();
    if n > 0 && existing.get_char(n - 1) != '\n' {
        next.push('\n');
    }
    assert(next@ =~= ended(existing@));
    next.append(ATTRIBUTES_LINE);
    next.push('\n');
    assert(next@ =~= ended(existing@) + ATTRIBUTES_LINE@ + seq!['\n']);
    Some(next)
}

/// What git's configuration becomes; none where it already has the section, or where there
/// is no such file.
pub open spec fn git_config_after(existing: Option<Seq<char>>) -> Option<Seq<char>> {
    match existing {
        None => None,
        Some(s) => if text::occurs(s, DRIVER_SECTION@) {
            None
        } else {
            Some(s + DRIVER_STANZA@)
        },
    }
}

/// Edits git's configuration.
pub fn edit_git_config(existing: Option<&str>) -> (r: Option<String>)
    ensures
        r.deep_view() == git_config_after(text::opt_view(existing)),
{
    match existing {
        None => None,
        Some(s) => if text::contains(s, DRIVER_SECTION) {
            None
        } else {
            Some(text::cat2(s, DRIVER_STANZA))
        },
    }
}

/// Installing the merge driver again changes neither file.
pub proof fn law_the_merge_driver_is_installed_once(attributes: Seq<char>, git_config: Seq<char>)
    ensures
        attributes_after(attributes) matches Some(next) ==> attributes_after(next) is None,
        git_config_after(Some(git_config)) matches Some(next) ==> git_config_after(Some(next))
            is None,
{
    let line = ATTRIBUTES_LINE@;
    reveal_strlit(".clove/issues/*.md merge=clove-item");
    assert(is_plain_line(line)) by {
        assert(line.len() == 35);
        assert(line[0] == '.');
        assert(line[34] == 'm');
        assert(!text::is_space(line[0]));
        assert(!text::is_space(line.last()));
        assert(text::trim_back(line) == line);
        assert(text::trim_front(line) == line);
    }
    if let Some(next) = attributes_after(attributes) {
        law_a_written_line_is_there(ended(attributes), line);
    }
    reveal_strlit("[merge \"clove-item\"]");
    reveal_strlit("\n[merge \"clove-item\"]\n\tname = clove item 3-way merge\n\tdriver = clove merge-driver %O %A %B %L\n");
    if let Some(next) = git_config_after(Some(git_config)) {
        let at = git_config.len() as int + 1;
        assert(next.subrange(at, at + DRIVER_SECTION@.len()) =~= DRIVER_SECTION@);
        assert(text::occurs_at(next, DRIVER_SECTION@, at));
    }
}

/// Neither edit loses anything that the file held.
pub proof fn law_the_merge_driver_keeps_the_files(attributes: Seq<char>, git_config: Seq<char>)
    ensures
        attributes_after(attributes) matches Some(next) ==> text::begins(next, attributes),
        git_config_after(Some(git_config)) matches Some(next) ==> text::begins(next, git_config),
{
    if let Some(next) = attributes_after(attributes) {
        assert(next.take(attributes.len() as int) =~= attributes);
    }
    if let Some(next) = git_config_after(Some(git_config)) {
        assert(next.take(git_config.len() as int) =~= git_config);
    }
}

// ---- Output -------------------------------------------------------------------

/// What is printed of a new repository; `assistant` is the name of the coding assistant.
pub open spec fn init_output(
    format: OutputFormat,
    root: Seq<char>,
    clove_dir: Seq<char>,
    created_config: bool,
    quiet: bool,
    assistant: Seq<char>,
) -> Seq<OutView> {
    if format == OutputFormat::Human {
        if quiet {
            Seq::empty()
        } else {
            seq![
                OutView::Text("Initialized clove repository in "@ + clove_dir),
                OutView::Text("run 'clove agent-doc' to generate an AGENTS.md snippet"@),
                OutView::Text(
                    "run 'clove setup' to register clove's MCP server with "@ + assistant,
                ),
            ]
        }
    } else {
        seq![
            OutView::Json(
                success(
                    obj(
                        seq![
                            ("root"@, JsonView::Text(root)),
                            ("clove_dir"@, JsonView::Text(clove_dir)),
                            ("created_config"@, JsonView::Bool(created_config)),
                        ],
                    ),
                    warnings_meta(Seq::empty()),
                ),
            ),
        ]
    }
}

/// Renders what was made.
pub fn run(
    format: OutputFormat,
    at: &Location,
    created_config: bool,
    quiet: bool,
    assistant: &str,
) -> (r: Vec<Out>)
    ensures
        r.deep_view() == init_output(
            format,
            at.root@,
            at.clove_dir@,
            created_config,
            quiet,
            assistant@,
        ),
{
    let mut out: Vec<Out> = Vec::new();
    match format {
        OutputFormat::Human => {
            if !quiet {
                out.push(
                    Out::Text(text::cat2("Initialized clove repository in ", at.clove_dir.as_str())),
                );
                out.push(
                    Out::Text("run 'clove agent-doc' to generate an AGENTS.md snippet".to_owned()),
                );
                out.push(
                    Out::Text(
                        text::cat2(
                            "run 'clove setup' to register clove's MCP server with ",
                            assistant,
                        ),
                    ),
                );
            }
        },
        _ => {
            let v: Vec<(String, Json)> = vec![
                ("root".to_owned(), string(at.root.as_str())),
                ("clove_dir".to_owned(), string(at.clove_dir.as_str())),
                ("created_config".to_owned(), Json::Bool(created_config)),
            ];
            assert(pairs(v@) =~= seq![
                ("root"@, JsonView::Text(at.root@)),
                ("clove_dir"@, JsonView::Text(at.clove_dir@)),
                ("created_config"@, JsonView::Bool(created_config)),
            ]);
            out.push(Out::Json(success_envelope(object(v), meta_without_warnings())));
        },
    }
    assert(out.deep_view() =~= init_output(
        format,
        at.root@,
        at.clove_dir@,
        created_config,
        quiet,
        assistant@,
    ));
    out
}

/// Setting up says where, in every format: for people with what to do next, and in JSON with
/// whether the configuration is new.
pub proof fn law_setting_up_says_where(
    root: Seq<char>,
    clove_dir: Seq<char>,
    created_config: bool,
    quiet: bool,
    assistant: Seq<char>,
)
    ensures
        init_output(OutputFormat::Json, root, clove_dir, created_config, quiet, assistant)[0]
            matches OutView::Json(v) && (v.member("data"@) matches Some(d) && d.member("root"@)
            == Some(JsonView::Text(root)) && d.member("clove_dir"@) == Some(
            JsonView::Text(clove_dir),
        ) && d.member("created_config"@) == Some(JsonView::Bool(created_config))),
        init_output(OutputFormat::Human, root, clove_dir, created_config, false, assistant)[0]
            == OutView::Text("Initialized clove repository in "@ + clove_dir),
        init_output(OutputFormat::Human, root, clove_dir, created_config, false, assistant).last()
            == OutView::Text("run 'clove setup' to register clove's MCP server with "@ + assistant),
        init_output(OutputFormat::Human, root, clove_dir, created_config, true, assistant).len()
            == 0,
{
    let d = obj(
        seq![
            ("root"@, JsonView::Text(root)),
            ("clove_dir"@, JsonView::Text(clove_dir)),
            ("created_config"@, JsonView::Bool(created_config)),
        ],
    );
    reveal_strlit("root");
    reveal_strlit("clove_dir");
    reveal_strlit("created_config");
    let p = seq![
        ("root"@, JsonView::Text(root)),
        ("clove_dir"@, JsonView::Text(clove_dir)),
        ("created_config"@, JsonView::Bool(created_config)),
    ];
    assert(d == obj(p));
    assert(p[0].0 == "root"@ && p[1].0 == "clove_dir"@ && p[2].0 == "created_config"@);
    law_distinct_pairs_are_members(p);
    law_a_success_carries_its_data(d, warnings_meta(Seq::empty()));
}

/// What was missing is there afterwards: the line that names the merge driver for every item,
/// and the section that says how it is run.
pub proof fn law_the_merge_driver_is_there_afterwards(
    attributes: Seq<char>,
    git_config: Seq<char>,
)
    ensures
        attributes_after(attributes) matches Some(next) ==> text::ends(
            next,
            ATTRIBUTES_LINE@ + seq!['\n'],
        ),
        attributes_after(attributes) is None <==> has_line(attributes, ATTRIBUTES_LINE@),
        git_config_after(Some(git_config)) matches Some(next) ==> text::ends(next, DRIVER_STANZA@),
        git_config_after(Some(git_config)) is None <==> text::occurs(git_config, DRIVER_SECTION@),
        git_config_after(None) is None,
{
    if let Some(next) = attributes_after(attributes) {
        let back = ATTRIBUTES_LINE@ + seq!['\n'];
        assert(next.skip(next.len() - back.len()) =~= back);
    }
    if let Some(next) = git_config_after(Some(git_config)) {
        assert(next.skip(next.len() - DRIVER_STANZA@.len()) =~= DRIVER_STANZA@);
    }
}

} // verus!
