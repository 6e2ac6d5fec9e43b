//! External-subcommand plugins.
//!
//! A bare `clove <x>` that matches no built-in resolves a `clove-<x>` binary on the
//! search path and hands off to it, as `cargo foo` runs `cargo-foo`. Here are the
//! names of those binaries, the order in which they are searched, what a plugin says
//! of itself when it is asked, and the environment it is started in.

use vstd::prelude::*;

use crate::cli::ColorChoice;
use crate::context::Ctx;
use crate::json::{Json, JsonView};
use crate::json_text::json_parsed;
use crate::order::{
    by_name, law_different_names_rise_strictly, law_sorted_is_an_ordered_rearrangement, sort_named,
    sorted_by, Named,
};
use crate::output::OutputFormat;
use crate::path;
use crate::registry::copy_strings;
use crate::text;

verus! {

/// The contract version between the host and its plugins (`$CLOVE_PLUGIN_API`).
pub const PLUGIN_API_VERSION: u32 = 1;

/// The item schema version that this build reads and writes (`$CLOVE_SCHEMA`).
pub const CURRENT_SCHEMA_VERSION: u32 = 1;

/// How long a plugin has to answer `--clove-plugin-info`, in milliseconds.
pub const PROBE_TIMEOUT_MS: u64 = 500;

/// How long to sleep between two looks at a plugin that was asked, in milliseconds.
pub const PROBE_POLL_MS: u64 = 20;

/// The resolved global behavior flags that are handed to a plugin.
#[derive(Debug, Clone, Copy, PartialEq, Eq, Structural)]
pub struct PluginGlobals {
    /// The resolved output format (`$CLOVE_FORMAT`).
    pub format: OutputFormat,
    /// The resolved color preference (`$CLOVE_COLOR`).
    pub color: ColorChoice,
    /// The `--quiet` flag (`$CLOVE_QUIET`).
    pub quiet: bool,
    /// The `--no-index` flag (`$CLOVE_NO_INDEX`).
    pub no_index: bool,
    /// The `--deep` flag (`$CLOVE_DEEP`).
    pub deep: bool,
}

/// A resolvable plugin: its subcommand name and the file that would be run.
#[derive(Debug, PartialEq, Eq)]
pub struct PluginInfo {
    /// The subcommand name, e.g. `sync-github` for `clove-sync-github`.
    pub name: String,
    /// The path to the plugin binary.
    pub path: String,
}

/// The model of a [`PluginInfo`].
pub struct InfoView {
    pub name: Seq<char>,
    pub path: Seq<char>,
}

impl DeepView for PluginInfo {
    type V = InfoView;

    open spec fn deep_view(&self) -> InfoView {
        InfoView { name: self.name@, path: self.path@ }
    }
}

impl Clone for PluginInfo {
    fn clone(&self) -> (r: PluginInfo)
        ensures
            r.deep_view() == self.deep_view(),
    {
        PluginInfo { name: self.name.clone(), path: self.path.clone() }
    }
}

impl Named for PluginInfo {
    open spec fn label(v: InfoView) -> Seq<char> {
        v.name
    }

    fn name(&self) -> (r: &str) {
        self.name.as_str()
    }
}

// ---- Names and the search path ------------------------------------------------

/// The file name of the binary behind a dispatch path.
pub open spec fn binary(segments: Seq<Seq<char>>, exe_suffix: Seq<char>) -> Seq<char> {
    "clove-"@ + text::joined(segments, "-"@) + exe_suffix
}

/// The binary name for a dispatch path, e.g. `["sync", "github"]` →
/// `clove-sync-github`, with `exe_suffix` the platform's executable suffix.
pub fn binary_name(segments: &Vec<String>, exe_suffix: &str) -> (r: String)
    ensures
        r@ == binary(segments.deep_view(), exe_suffix@),
{
    let name = text::join(segments, "-");
    text::cat3("clove-", name.as_str(), exe_suffix)
}

/// May `s` be part of a binary's name: one path component that is not the parent
/// directory?
pub open spec fn is_segment(s: Seq<char>) -> bool {
    s.len() > 0 && s != ".."@ && !s.contains('/') && !s.contains('\\')
}

/// A dispatch segment must be a single, non-empty path component — no separators
/// and no `..` — so that a token like `foo/../../bin/sh` names no file.
pub fn is_valid_segment(segment: &str) -> (r: bool)
    ensures
        r == is_segment(segment@),
{
    !segment.is_empty() && !text::same(segment, "..") && !text::has_char(segment, '/')
        && !text::has_char(segment, '\\')
}

/// Are all of these segments good?
pub open spec fn are_segments(segments: Seq<Seq<char>>) -> bool {
    forall|i: int| 0 <= i < segments.len() ==> is_segment(#[trigger] segments[i])
}

fn valid_segments(segments: &Vec<String>) -> (r: bool)
    ensures
        r == are_segments(segments.deep_view()),
{
    let ghost all = segments.deep_view();
    let mut i: usize = 0;
    while i < segments.len()
        invariant
            i <= segments.len(),
            all == segments.deep_view(),
            forall|j: int| 0 <= j < i ==> is_segment(#[trigger] all[j]),
        decreases segments.len() - i,
    {
        if !is_valid_segment(segments[i].as_str()) {
            assert(!is_segment(all[i as int]));
            return false;
        }
        i += 1;
    }
    true
}

/// The search path: the directory of the running binary, then `$CLOVE_PLUGIN_PATH`,
/// then the directory clove installs into, then `$PATH`.
pub open spec fn searched(
    exe_dir: Option<Seq<char>>,
    plugin_path: Seq<Seq<char>>,
    home_bin: Option<Seq<char>>,
    path: Seq<Seq<char>>,
) -> Seq<Seq<char>> {
    (match exe_dir {
        Some(d) => seq![d],
        None => Seq::empty(),
    }) + plugin_path + (match home_bin {
        Some(d) => seq![d],
        None => Seq::empty(),
    }) + path
}

fn push_all(out: &mut Vec<String>, more: &Vec<String>)
    ensures
        final(out).deep_view() == old(out).deep_view() + more.deep_view(),
{
    let ghost start = out.deep_view();
    let ghost all = more.deep_view();
    let mut i: usize = 0;
    assert(start + all.take(0) =~= start);
    while i < more.len()
        invariant
            i <= more.len(),
            all == more.deep_view(),
            out.deep_view() == start + all.take(i as int),
        decreases more.len() - i,
    {
        let ghost prev = out.deep_view();
        out.push(more[i].clone());
        assert(out.deep_view() =~= prev.push(all[i as int]));
        assert(prev.push(all[i as int]) =~= start + all.take(i + 1));
        i += 1;
    }
    assert(all.take(i as int) =~= all);
}

/// The ordered plugin search path. The binary's own directory comes first, so that a
/// plugin installed next to `clove` is found even when that directory is not on
/// `$PATH`; the directory clove installs into outranks `$PATH`.
pub fn search_dirs(
    exe_dir: Option<&str>,
    plugin_path: &Vec<String>,
    home_bin: Option<&str>,
    path: &Vec<String>,
) -> (r: Vec<String>)
    ensures
        r.deep_view() == searched(
            text::opt_view(exe_dir),
            plugin_path.deep_view(),
            text::opt_view(home_bin),
            path.deep_view(),
        ),
{
    let mut dirs: Vec<String> = Vec::new();
    if let Some(d) = exe_dir {
        dirs.push(d.to_owned());
    }
    let ghost first = dirs.deep_view();
    assert(first =~= match text::opt_view(exe_dir) {
        Some(d) => seq![d],
        None => Seq::empty(),
    });
    push_all(&mut dirs, plugin_path);
    let ghost second = dirs.deep_view();
    if let Some(d) = home_bin {
        dirs.push(d.to_owned());
    }
    assert(dirs.deep_view() =~= second + (match text::opt_view(home_bin) {
        Some(d) => seq![d],
        None => Seq::empty(),
    }));
    push_all(&mut dirs, path);
    dirs
}

/// Is `path` the file `name` directly in `dir`? (Of a name that some platform would
/// read as more than one component, nothing is said.)
pub open spec fn in_dir(dir: Seq<char>, name: Seq<char>, path: Seq<char>) -> bool {
    path::is_component(name) ==> path::extends(dir, name, path)
}

/// The file that a dispatch path names is directly in the directory that is searched: the
/// name of a binary is one component, whatever its segments are.
pub proof fn law_a_binary_is_one_component(segments: Seq<Seq<char>>, exe_suffix: Seq<char>)
    requires
        are_segments(segments),
        path::is_suffix(exe_suffix),
    ensures
        path::is_component(binary(segments, exe_suffix)),
{
    reveal_strlit("clove-");
    lemma_joined_has_no_separator(segments);
    let middle = text::joined(segments, "-"@);
    let name = binary(segments, exe_suffix);
    assert(name[1] == 'l');
    assert forall|i: int| 0 <= i < name.len() implies #[trigger] name[i] != '/' && name[i] != '\\' by {
        if i < 6 {
            assert(name[i] == "clove-"@[i]);
        } else if i < 6 + middle.len() {
            assert(name[i] == middle[i - 6]);
            assert(middle.contains(middle[i - 6]));
        } else {
            assert(name[i] == exe_suffix[i - 6 - middle.len()]);
            assert(exe_suffix.contains(exe_suffix[i - 6 - middle.len()]));
        }
    }
}

proof fn lemma_joined_has_no_separator(segments: Seq<Seq<char>>)
    requires
        are_segments(segments),
    ensures
        path::is_suffix(text::joined(segments, "-"@)),
    decreases segments.len(),
{
    reveal_strlit("-");
    if segments.len() == 1 {
        assert(is_segment(segments[0]));
    } else if segments.len() > 1 {
        let front = segments.drop_last();
        assert forall|i: int| 0 <= i < front.len() implies is_segment(#[trigger] front[i]) by {
            assert(front[i] == segments[i]);
        }
        lemma_joined_has_no_separator(front);
        let a = text::joined(front, "-"@);
        let last = segments.last();
        assert(is_segment(segments[segments.len() - 1]));
        let all = text::joined(segments, "-"@);
        assert forall|i: int| 0 <= i < all.len() implies #[trigger] all[i] != '/' && all[i] != '\\' by {
            if i < a.len() {
                assert(all[i] == a[i]);
                assert(a.contains(a[i]));
            } else if i > a.len() {
                assert(all[i] == last[i - a.len() - 1]);
                assert(last.contains(last[i - a.len() - 1]));
            }
        }
    }
}

/// The files that a dispatch path may resolve to, in the order of the search: one in
/// each directory, and none at all if a segment is not a single path component.
pub fn candidates(segments: &Vec<String>, dirs: &Vec<String>, exe_suffix: &str) -> (r: Vec<String>)
    ensures
        are_segments(segments.deep_view()) ==> r.len() == dirs.len() && forall|i: int|
            0 <= i < r.len() ==> in_dir(
                dirs@[i]@,
                binary(segments.deep_view(), exe_suffix@),
                #[trigger] r@[i]@,
            ),
        !are_segments(segments.deep_view()) ==> r.len() == 0,
{
    let mut out: Vec<String> = Vec::new();
    if !valid_segments(segments) {
        return out;
    }
    let name = binary_name(segments, exe_suffix);
    let mut i: usize = 0;
    while i < dirs.len()
        invariant
            i <= dirs.len(),
            name@ == binary(segments.deep_view(), exe_suffix@),
            out.len() == i,
            forall|j: int| 0 <= j < i ==> in_dir(dirs@[j]@, name@, #[trigger] out@[j]@),
        decreases dirs.len() - i,
    {
        out.push(path::join(dirs[i].as_str(), name.as_str()));
        i += 1;
    }
    out
}

/// The first of the files that can be run.
pub open spec fn first_runnable(files: Seq<Seq<char>>, runnable: Seq<bool>) -> Option<Seq<char>>
    decreases files.len(),
{
    if files.len() == 0 || runnable.len() == 0 {
        None
    } else if runnable[0] {
        Some(files[0])
    } else {
        first_runnable(files.drop_first(), runnable.drop_first())
    }
}

proof fn lemma_first_runnable_at(files: Seq<Seq<char>>, runnable: Seq<bool>, n: int)
    requires
        0 <= n <= files.len(),
        n <= runnable.len(),
        forall|j: int| 0 <= j < n ==> !#[trigger] runnable[j],
        n < files.len() && n < runnable.len() ==> runnable[n],
    ensures
        first_runnable(files, runnable) == (if n < files.len() && n < runnable.len() {
            Some(files[n])
        } else {
            None
        }),
    decreases n,
{
    if n > 0 {
        let rest = runnable.drop_first();
        assert forall|j: int| 0 <= j < n - 1 implies !#[trigger] rest[j] by {
            assert(rest[j] == runnable[j + 1]);
        }
        lemma_first_runnable_at(files.drop_first(), rest, n - 1);
    }
}

/// The plugin that a dispatch path resolves to: the first of its [`candidates`] that
/// is a file which can be run, as `runnable` tells of each.
pub fn resolve(files: &Vec<String>, runnable: &Vec<bool>) -> (r: Option<String>)
    ensures
        r.deep_view() == first_runnable(files.deep_view(), runnable@),
{
    let ghost all = files.deep_view();
    let mut i: usize = 0;
    while i < files.len() && i < runnable.len()
        invariant
            i <= files.len(),
            i <= runnable.len(),
            all == files.deep_view(),
            forall|j: int| 0 <= j < i ==> !#[trigger] runnable@[j],
        decreases files.len() - i,
    {
        if runnable[i] {
            proof {
                lemma_first_runnable_at(all, runnable@, i as int);
            }
            return Some(files[i].clone());
        }
        i += 1;
    }
    proof {
        lemma_first_runnable_at(all, runnable@, i as int);
    }
    None
}

/// Whatever is resolved is one of the candidates, so a token that is not a single
/// path component resolves to nothing.
pub proof fn law_resolved_files_are_candidates(files: Seq<Seq<char>>, runnable: Seq<bool>)
    ensures
        first_runnable(files, runnable) matches Some(f) ==> files.contains(f),
        files.len() == 0 ==> first_runnable(files, runnable) is None,
    decreases files.len(),
{
    if files.len() > 0 && runnable.len() > 0 {
        if runnable[0] {
            assert(files[0] == files[0]);
        } else {
            law_resolved_files_are_candidates(files.drop_first(), runnable.drop_first());
            if let Some(f) = first_runnable(files, runnable) {
                let i = choose|i: int| 0 <= i < files.drop_first().len() && files.drop_first()[i] == f;
                assert(files[i + 1] == f);
            }
        }
    }
}

// ---- The installed plugins ----------------------------------------------------

/// A file of a search directory.
#[derive(Debug, PartialEq, Eq)]
pub struct Entry {
    pub file_name: String,
    pub path: String,
    /// Is it a regular file that can be run?
    pub executable: bool,
}

/// The model of an [`Entry`].
pub struct EntryView {
    pub file_name: Seq<char>,
    pub path: Seq<char>,
    pub executable: bool,
}

impl DeepView for Entry {
    type V = EntryView;

    open spec fn deep_view(&self) -> EntryView {
        EntryView { file_name: self.file_name@, path: self.path@, executable: self.executable }
    }
}

/// The subcommand of a file on disk: what stands between `clove-` and the platform's
/// suffix, which the file must have.
pub open spec fn file_subcommand(file_name: Seq<char>, exe_suffix: Seq<char>) -> Option<Seq<char>> {
    match text::behind(file_name, "clove-"@) {
        Some(rest) => match text::before(rest, exe_suffix) {
            Some(name) => if name.len() > 0 {
                Some(name)
            } else {
                None
            },
            None => None,
        },
        None => None,
    }
}

/// The subcommand that a file on disk answers, if it is named as a plugin is.
pub fn subcommand_of_file<'a>(file_name: &'a str, exe_suffix: &str) -> (r: Option<&'a str>)
    ensures
        text::opt_view(r) == file_subcommand(file_name@, exe_suffix@),
{
    match text::strip_prefix(file_name, "clove-") {
        Some(rest) => match text::strip_suffix(rest, exe_suffix) {
            Some(name) => if name.is_empty() {
                None
            } else {
                Some(name)
            },
            None => None,
        },
        None => None,
    }
}

/// Does one of the plugins have this name?
pub open spec fn has_name(found: Seq<InfoView>, name: Seq<char>) -> bool {
    exists|i: int| 0 <= i < found.len() && (#[trigger] found[i]).name == name
}

/// The plugins among the files of the search path, the first of each name.
pub open spec fn plugins_in(entries: Seq<EntryView>, exe_suffix: Seq<char>) -> Seq<InfoView>
    decreases entries.len(),
{
    if entries.len() == 0 {
        Seq::empty()
    } else {
        let found = plugins_in(entries.drop_last(), exe_suffix);
        let e = entries.last();
        match file_subcommand(e.file_name, exe_suffix) {
            Some(name) => if e.executable && !has_name(found, name) {
                found.push(InfoView { name, path: e.path })
            } else {
                found
            },
            None => found,
        }
    }
}

fn name_taken(found: &Vec<PluginInfo>, name: &str) -> (r: bool)
    ensures
        r == has_name(found.deep_view(), name@),
{
    let ghost all = found.deep_view();
    let mut i: usize = 0;
    while i < found.len()
        invariant
            i <= found.len(),
            all == found.deep_view(),
            forall|j: int| 0 <= j < i ==> (#[trigger] all[j]).name != name@,
        decreases found.len() - i,
    {
        assert(all[i as int] == found@[i as int].deep_view());
        if text::same(found[i].name.as_str(), name) {
            assert(all[i as int].name == name@);
            return true;
        }
        i += 1;
    }
    false
}

/// Every resolvable plugin among `entries`, the files of the search directories in
/// the order of the search: those named `clove-<x>` that can be run, the first of
/// each name (as [`resolve`] picks it), in the order of their names.
pub fn list(entries: &Vec<Entry>, exe_suffix: &str) -> (r: Vec<PluginInfo>)
    ensures
        r.deep_view() == sorted_by(
            plugins_in(entries.deep_view(), exe_suffix@),
            by_name::<PluginInfo>(),
        ),
{
    let ghost all = entries.deep_view();
    let mut found: Vec<PluginInfo> = Vec::new();
    let mut i: usize = 0;
    assert(found.deep_view() =~= plugins_in(all.take(0), exe_suffix@));
    while i < entries.len()
        invariant
            i <= entries.len(),
            all == entries.deep_view(),
            found.deep_view() == plugins_in(all.take(i as int), exe_suffix@),
        decreases entries.len() - i,
    {
        let ghost prev = found.deep_view();
        assert(all.take(i + 1).drop_last() =~= all.take(i as int));
        assert(all[i as int] == entries@[i as int].deep_view());
        let e = &entries[i];
        if let Some(name) = subcommand_of_file(e.file_name.as_str(), exe_suffix) {
            if e.executable && !name_taken(&found, name) {
                found.push(PluginInfo { name: name.to_owned(), path: e.path.clone() });
                assert(found.deep_view() =~= prev.push(
                    InfoView { name: name@, path: e.path@ },
                ));
            }
        }
        i += 1;
    }
    assert(all.take(i as int) =~= all);
    sort_named(found)
}

/// No two listed plugins have the same name, and each is a file that can be run and
/// is named as a plugin is.
pub proof fn law_listed_plugins_are_distinct_files(entries: Seq<EntryView>, exe_suffix: Seq<char>)
    ensures
        forall|i: int, j: int|
            0 <= i < j < plugins_in(entries, exe_suffix).len() ==> (
            #[trigger] plugins_in(entries, exe_suffix)[i]).name != (#[trigger] plugins_in(
                entries,
                exe_suffix,
            )[j]).name,
        forall|i: int|
            0 <= i < plugins_in(entries, exe_suffix).len() ==> is_plugin_file(
                entries,
                exe_suffix,
                #[trigger] plugins_in(entries, exe_suffix)[i],
            ),
    decreases entries.len(),
{
    if entries.len() > 0 {
        let init = entries.drop_last();
        let found = plugins_in(init, exe_suffix);
        let all = plugins_in(entries, exe_suffix);
        law_listed_plugins_are_distinct_files(init, exe_suffix);
        assert forall|i: int| 0 <= i < all.len() implies is_plugin_file(
            entries,
            exe_suffix,
            #[trigger] all[i],
        ) by {
            if i < found.len() {
                assert(is_plugin_file(init, exe_suffix, found[i]));
                let k = choose|k: int|
                    0 <= k < init.len() && (#[trigger] init[k]).executable && init[k].path
                        == found[i].path && file_subcommand(init[k].file_name, exe_suffix) == Some(
                        found[i].name,
                    );
                assert(entries[k] == init[k]);
            } else {
                assert(entries[entries.len() - 1].executable);
            }
        }
    }
}

/// Is the plugin one of the files: runnable, and of the name that the plugin has?
pub open spec fn is_plugin_file(
    entries: Seq<EntryView>,
    exe_suffix: Seq<char>,
    p: InfoView,
) -> bool {
    exists|k: int|
        0 <= k < entries.len() && (#[trigger] entries[k]).executable && entries[k].path == p.path
            && file_subcommand(entries[k].file_name, exe_suffix) == Some(p.name)
}

/// The first of the files that can be run and serves a subcommand.
pub open spec fn first_file(
    entries: Seq<EntryView>,
    exe_suffix: Seq<char>,
    name: Seq<char>,
) -> Option<Seq<char>>
    decreases entries.len(),
{
    if entries.len() == 0 {
        None
    } else {
        match first_file(entries.drop_last(), exe_suffix, name) {
            Some(path) => Some(path),
            None => if entries.last().executable && file_subcommand(
                entries.last().file_name,
                exe_suffix,
            ) == Some(name) {
                Some(entries.last().path)
            } else {
                None
            },
        }
    }
}

proof fn lemma_first_file_is_listed(
    entries: Seq<EntryView>,
    exe_suffix: Seq<char>,
    name: Seq<char>,
)
    ensures
        has_name(plugins_in(entries, exe_suffix), name) <==> first_file(entries, exe_suffix, name)
            is Some,
        forall|i: int|
            0 <= i < plugins_in(entries, exe_suffix).len() && (#[trigger] plugins_in(
                entries,
                exe_suffix,
            )[i]).name == name ==> first_file(entries, exe_suffix, name) == Some(
                plugins_in(entries, exe_suffix)[i].path,
            ),
    decreases entries.len(),
{
    if entries.len() > 0 {
        let init = entries.drop_last();
        lemma_first_file_is_listed(init, exe_suffix, name);
        let before = plugins_in(init, exe_suffix);
        let all = plugins_in(entries, exe_suffix);
        if has_name(before, name) {
            let k = choose|k: int| 0 <= k < before.len() && (#[trigger] before[k]).name == name;
            assert(all[k] == before[k]);
        }
        if has_name(all, name) {
            let k = choose|k: int| 0 <= k < all.len() && (#[trigger] all[k]).name == name;
            if k < before.len() {
                assert(before[k] == all[k]);
            }
        }
        if all.len() > before.len() {
            assert(all[before.len() as int].name == file_subcommand(
                entries.last().file_name,
                exe_suffix,
            )->0);
        }
        assert forall|i: int| 0 <= i < all.len() && (#[trigger] all[i]).name == name implies first_file(
            entries,
            exe_suffix,
            name,
        ) == Some(all[i].path) by {
            if i < before.len() {
                assert(before[i] == all[i]);
            }
        }
    }
}

proof fn lemma_first_file_among(
    a: Seq<EntryView>,
    b: Seq<EntryView>,
    exe_suffix: Seq<char>,
    name: Seq<char>,
)
    ensures
        first_file(a + b, exe_suffix, name) == (match first_file(a, exe_suffix, name) {
            Some(path) => Some(path),
            None => first_file(b, exe_suffix, name),
        }),
    decreases b.len(),
{
    if b.len() == 0 {
        assert(a + b =~= a);
    } else {
        assert((a + b).drop_last() =~= a + b.drop_last());
        assert((a + b).last() == b.last());
        lemma_first_file_among(a, b.drop_last(), exe_suffix, name);
    }
}

/// The files of the search directories, in the order of the search.
pub open spec fn all_files(dirs: Seq<Seq<EntryView>>) -> Seq<EntryView>
    decreases dirs.len(),
{
    if dirs.len() == 0 {
        Seq::empty()
    } else {
        all_files(dirs.drop_last()) + dirs.last()
    }
}

/// Do `files` and `runnable` tell of the file of this name in each directory: where it is,
/// and whether it is there and can be run?
pub open spec fn tells_of(
    dirs: Seq<Seq<EntryView>>,
    files: Seq<Seq<char>>,
    runnable: Seq<bool>,
    exe_suffix: Seq<char>,
    name: Seq<char>,
) -> bool {
    &&& files.len() == dirs.len()
    &&& runnable.len() == dirs.len()
    &&& forall|d: int|
        0 <= d < dirs.len() ==> first_file(#[trigger] dirs[d], exe_suffix, name) == (
        if runnable[d] {
            Some(files[d])
        } else {
            None
        })
}

proof fn lemma_first_runnable_push(files: Seq<Seq<char>>, runnable: Seq<bool>)
    requires
        files.len() == runnable.len(),
        files.len() > 0,
    ensures
        first_runnable(files, runnable) == (match first_runnable(
            files.drop_last(),
            runnable.drop_last(),
        ) {
            Some(f) => Some(f),
            None => if runnable.last() {
                Some(files.last())
            } else {
                None
            },
        }),
    decreases files.len(),
{
    let f = files.drop_first();
    let r = runnable.drop_first();
    if files.len() > 1 && !runnable[0] {
        lemma_first_runnable_push(f, r);
        assert(f.drop_last() =~= files.drop_last().drop_first());
        assert(r.drop_last() =~= runnable.drop_last().drop_first());
    } else if files.len() == 1 {
        reveal_with_fuel(first_runnable, 2);
    }
}

proof fn lemma_resolving_finds_the_first(
    dirs: Seq<Seq<EntryView>>,
    files: Seq<Seq<char>>,
    runnable: Seq<bool>,
    exe_suffix: Seq<char>,
    name: Seq<char>,
)
    requires
        tells_of(dirs, files, runnable, exe_suffix, name),
    ensures
        first_file(all_files(dirs), exe_suffix, name) == first_runnable(files, runnable),
    decreases dirs.len(),
{
    if dirs.len() > 0 {
        let d = dirs.drop_last();
        let f = files.drop_last();
        let r = runnable.drop_last();
        assert forall|i: int| 0 <= i < d.len() implies first_file(
            #[trigger] d[i],
            exe_suffix,
            name,
        ) == (if r[i] {
            Some(f[i])
        } else {
            None
        }) by {
            assert(d[i] == dirs[i]);
        }
        lemma_resolving_finds_the_first(d, f, r, exe_suffix, name);
        lemma_first_file_among(all_files(d), dirs.last(), exe_suffix, name);
        lemma_first_runnable_push(files, runnable);
        assert(dirs[dirs.len() - 1] == dirs.last());
    }
}

/// A file serves a subcommand exactly if that is not empty and the file is named after it.
pub proof fn law_files_are_named_after_their_subcommand(
    file_name: Seq<char>,
    exe_suffix: Seq<char>,
    name: Seq<char>,
)
    ensures
        file_subcommand(file_name, exe_suffix) == Some(name) <==> name.len() > 0 && file_name
            == "clove-"@ + name + exe_suffix,
{
    let front = "clove-"@;
    if file_subcommand(file_name, exe_suffix) == Some(name) {
        let rest = text::behind(file_name, front)->0;
        assert(file_name =~= front + rest);
        assert(rest =~= name + exe_suffix);
        assert(file_name =~= front + name + exe_suffix);
    }
    if name.len() > 0 && file_name == front + name + exe_suffix {
        assert(file_name.take(front.len() as int) =~= front);
        let rest = file_name.skip(front.len() as int);
        assert(rest =~= name + exe_suffix);
        assert(rest.skip(rest.len() - exe_suffix.len()) =~= exe_suffix);
        assert(rest.take(rest.len() - exe_suffix.len()) =~= name);
    }
}

/// The list of the plugins is strictly in the order of their names. It has a name exactly if
/// some search directory has a file that can be run and serves it, and with it the path that
/// resolving the name gives.
pub proof fn law_the_list_is_what_resolves(
    dirs: Seq<Seq<EntryView>>,
    files: Seq<Seq<char>>,
    runnable: Seq<bool>,
    exe_suffix: Seq<char>,
    name: Seq<char>,
)
    requires
        tells_of(dirs, files, runnable, exe_suffix, name),
    ensures
        ({
            let listed = sorted_by(
                plugins_in(all_files(dirs), exe_suffix),
                by_name::<PluginInfo>(),
            );
            &&& forall|i: int, j: int|
                0 <= i < j < listed.len() ==> text::precedes(
                    (#[trigger] listed[i]).name,
                    (#[trigger] listed[j]).name,
                )
            &&& has_name(listed, name) <==> first_runnable(files, runnable) is Some
            &&& forall|i: int|
                0 <= i < listed.len() && (#[trigger] listed[i]).name == name ==> first_runnable(
                    files,
                    runnable,
                ) == Some(listed[i].path)
        }),
{
    broadcast use vstd::seq_lib::to_multiset_contains;

    let found = plugins_in(all_files(dirs), exe_suffix);
    let key = by_name::<PluginInfo>();
    let listed = sorted_by(found, key);
    law_listed_plugins_are_distinct_files(all_files(dirs), exe_suffix);
    lemma_resolving_finds_the_first(dirs, files, runnable, exe_suffix, name);
    lemma_first_file_is_listed(all_files(dirs), exe_suffix, name);
    law_different_names_rise_strictly(found, key);
    law_sorted_is_an_ordered_rearrangement(found, key);
    assert forall|i: int, j: int| 0 <= i < j < listed.len() implies text::precedes(
        (#[trigger] listed[i]).name,
        (#[trigger] listed[j]).name,
    ) by {
        assert(text::precedes(key(listed[i]), key(listed[j])));
    }
    assert forall|i: int| 0 <= i < listed.len() implies found.contains(#[trigger] listed[i]) by {
        assert(listed.contains(listed[i]));
        assert(listed.to_multiset().count(listed[i]) > 0);
    }
    if has_name(found, name) {
        let k = choose|k: int| 0 <= k < found.len() && (#[trigger] found[k]).name == name;
        assert(found.contains(found[k]));
        assert(found.to_multiset().count(found[k]) > 0);
        assert(listed.contains(found[k]));
        let i = choose|i: int| 0 <= i < listed.len() && listed[i] == found[k];
        assert(listed[i].name == name);
    }
    assert forall|i: int| 0 <= i < listed.len() && (#[trigger] listed[i]).name == name implies
        first_runnable(files, runnable) == Some(listed[i].path) by {
        let k = choose|k: int| 0 <= k < found.len() && found[k] == listed[i];
        assert(found[k].name == name);
    }
    if has_name(listed, name) {
        let i = choose|i: int| 0 <= i < listed.len() && (#[trigger] listed[i]).name == name;
        assert(first_runnable(files, runnable) == Some(listed[i].path));
    }
}

// ---- What a plugin says of itself ---------------------------------------------

/// The metadata a plugin advertises via `--clove-plugin-info`.
#[derive(Debug, PartialEq, Eq)]
pub struct ProbedInfo {
    pub version: String,
    /// The one-line description.
    pub about: String,
    /// The dispatch tokens the plugin provides, e.g. `["sync:github"]`.
    pub provides: Vec<String>,
    /// The contract version the plugin was built against.
    pub clove_plugin_api: u32,
    /// The lowest host contract version the plugin tolerates.
    pub min_clove_plugin_api: u32,
    /// The highest host contract version the plugin tolerates.
    pub max_clove_plugin_api: u32,
    /// The highest on-disk item schema the plugin understands.
    pub max_schema: u32,
}

/// The model of a [`ProbedInfo`].
pub struct ProbeView {
    pub version: Seq<char>,
    pub about: Seq<char>,
    pub provides: Seq<Seq<char>>,
    pub clove_plugin_api: u32,
    pub min_clove_plugin_api: u32,
    pub max_clove_plugin_api: u32,
    pub max_schema: u32,
}

impl DeepView for ProbedInfo {
    type V = ProbeView;

    open spec fn deep_view(&self) -> ProbeView {
        ProbeView {
            version: self.version@,
            about: self.about@,
            provides: self.provides.deep_view(),
            clove_plugin_api: self.clove_plugin_api,
            min_clove_plugin_api: self.min_clove_plugin_api,
            max_clove_plugin_api: self.max_clove_plugin_api,
            max_schema: self.max_schema,
        }
    }
}

impl Clone for ProbedInfo {
    fn clone(&self) -> (r: ProbedInfo)
        ensures
            r.deep_view() == self.deep_view(),
    {
        ProbedInfo {
            version: self.version.clone(),
            about: self.about.clone(),
            provides: copy_strings(&self.provides),
            clove_plugin_api: self.clove_plugin_api,
            min_clove_plugin_api: self.min_clove_plugin_api,
            max_clove_plugin_api: self.max_clove_plugin_api,
            max_schema: self.max_schema,
        }
    }
}

/// What to do about a plugin that was asked and has not answered yet.
#[derive(Debug, Clone, Copy, PartialEq, Eq, Structural)]
pub enum ProbeWait {
    /// Look again after [`PROBE_POLL_MS`].
    Wait,
    /// Kill it: a plugin that hangs must not hold up a listing.
    GiveUp,
}

/// What to do with a plugin that has not answered after some time.
pub open spec fn probe_awaited(elapsed_ms: u64) -> ProbeWait {
    if elapsed_ms >= PROBE_TIMEOUT_MS {
        ProbeWait::GiveUp
    } else {
        ProbeWait::Wait
    }
}

/// A plugin has [`PROBE_TIMEOUT_MS`] to answer.
pub fn probe_wait(elapsed_ms: u64) -> (r: ProbeWait)
    ensures
        r == probe_awaited(elapsed_ms),
{
    if elapsed_ms >= PROBE_TIMEOUT_MS {
        ProbeWait::GiveUp
    } else {
        ProbeWait::Wait
    }
}

/// The text under `key`, or nothing.
pub open spec fn text_under(v: JsonView, key: Seq<char>) -> Seq<char> {
    match v.member(key) {
        Some(JsonView::Text(s)) => s,
        _ => Seq::empty(),
    }
}

/// The texts of an array, other elements left out.
pub open spec fn texts_among(items: Seq<JsonView>) -> Seq<Seq<char>>
    decreases items.len(),
{
    if items.len() == 0 {
        Seq::empty()
    } else {
        match items.last() {
            JsonView::Text(s) => texts_among(items.drop_last()).push(s),
            _ => texts_among(items.drop_last()),
        }
    }
}

/// The number under `key`, its low 32 bits, or `default`.
pub open spec fn number_under(v: JsonView, key: Seq<char>, default: u32) -> u32 {
    match v.member(key) {
        Some(m) => match m.unsigned() {
            Some(n) => n as u32,
            None => default,
        },
        None => default,
    }
}

/// What a plugin's answer says. A compatibility field that is missing is the host's
/// own: a plugin from before these fields is of the first contract version.
pub open spec fn probe_of(v: JsonView) -> ProbeView {
    let api = number_under(v, "clove_plugin_api"@, PLUGIN_API_VERSION);
    ProbeView {
        version: text_under(v, "version"@),
        about: text_under(v, "about"@),
        provides: match v.member("provides"@) {
            Some(JsonView::Array(items)) => texts_among(items),
            _ => Seq::empty(),
        },
        clove_plugin_api: api,
        min_clove_plugin_api: number_under(v, "min_clove_plugin_api"@, api),
        max_clove_plugin_api: number_under(v, "max_clove_plugin_api"@, api),
        max_schema: number_under(v, "max_schema"@, CURRENT_SCHEMA_VERSION),
    }
}

/// The text under `key`, or nothing.
pub fn read_text(v: &Json, key: &str) -> (r: String)
    ensures
        r@ == text_under(v.shape(), key@),
{
    match v.get(key) {
        Some(m) => match m.as_str() {
            Some(s) => s.to_owned(),
            None => String::new(),
        },
        None => String::new(),
    }
}

fn read_number(v: &Json, key: &str, default: u32) -> (r: u32)
    ensures
        r == number_under(v.shape(), key@, default),
{
    match v.get(key) {
        Some(m) => match m.as_u64() {
            Some(n) => #[verifier::truncate]
            (n as u32),
            None => default,
        },
        None => default,
    }
}

fn read_texts(items: &Vec<Json>) -> (r: Vec<String>)
    ensures
        r.deep_view() == texts_among(items.deep_view()),
{
    let ghost all = items.deep_view();
    let mut out: Vec<String> = Vec::new();
    let mut i: usize = 0;
    assert(out.deep_view() =~= texts_among(all.take(0)));
    while i < items.len()
        invariant
            i <= items.len(),
            all == items.deep_view(),
            out.deep_view() == texts_among(all.take(i as int)),
        decreases items.len() - i,
    {
        let ghost prev = out.deep_view();
        assert(all.take(i + 1).drop_last() =~= all.take(i as int));
        assert(all[i as int] == items@[i as int].shape());
        if let Some(s) = items[i].as_str() {
            out.push(s.to_owned());
            assert(out.deep_view() =~= prev.push(s@));
        }
        i += 1;
    }
    assert(all.take(i as int) =~= all);
    out
}

/// Reads a plugin's answer.
pub fn probe_from(value: &Json) -> (r: ProbedInfo)
    ensures
        r.deep_view() == probe_of(value.shape()),
{
    let api = read_number(value, "clove_plugin_api", PLUGIN_API_VERSION);
    let provides: Vec<String> = match value.get("provides") {
        Some(m) => match m.as_array() {
            Some(items) => read_texts(items),
            None => Vec::new(),
        },
        None => Vec::new(),
    };
    let r = ProbedInfo {
        version: read_text(value, "version"),
        about: read_text(value, "about"),
        provides,
        clove_plugin_api: api,
        min_clove_plugin_api: read_number(value, "min_clove_plugin_api", api),
        max_clove_plugin_api: read_number(value, "max_clove_plugin_api", api),
        max_schema: read_number(value, "max_schema", CURRENT_SCHEMA_VERSION),
    };
    assert(r.deep_view().provides =~= probe_of(value.shape()).provides);
    r
}

/// What a plugin printed: its answer, if it is JSON at all.
pub open spec fn probed(stdout: Seq<char>) -> Option<ProbeView> {
    match json_parsed(text::trimmed(stdout)) {
        Ok(v) => Some(probe_of(v)),
        Err(_) => None,
    }
}

/// Parses what a plugin printed when it was asked `--clove-plugin-info`.
pub fn parse_probe_json(stdout: &str) -> (r: Option<ProbedInfo>)
    ensures
        r.deep_view() == probed(stdout@),
{
    match Json::parse(text::trim(stdout)) {
        Ok(v) => Some(probe_from(&v)),
        Err(_) => None,
    }
}

/// What is known of a plugin that was asked: nothing unless it exited well and its
/// output could be read.
pub open spec fn probe_answer(success: bool, stdout: Option<Seq<char>>) -> Option<ProbeView> {
    match stdout {
        Some(s) => if success {
            probed(s)
        } else {
            None
        },
        None => None,
    }
}

/// What a plugin says of itself, from how it exited and what it printed. Every failure
/// comes to "no metadata", so that the plugin is listed by its name.
pub fn probe_info(success: bool, stdout: Option<&str>) -> (r: Option<ProbedInfo>)
    ensures
        r.deep_view() == probe_answer(success, text::opt_view(stdout)),
{
    if !success {
        return None;
    }
    match stdout {
        Some(s) => parse_probe_json(s),
        None => None,
    }
}

/// Whether the host and a plugin understand each other.
#[derive(Debug, Clone, Copy, PartialEq, Eq, Structural)]
pub enum PluginStatus {
    /// The host is within the plugin's range.
    Compatible,
    /// The plugin predates this clove.
    Outdated,
    /// The plugin needs a newer clove.
    NeedsNewerClove,
    /// The plugin did not answer.
    NoInfo,
}

impl PluginStatus {
    /// The word for a status.
    pub open spec fn word(self) -> Seq<char> {
        match self {
            PluginStatus::Compatible => "ok"@,
            PluginStatus::Outdated => "outdated"@,
            PluginStatus::NeedsNewerClove => "needs_newer_clove"@,
            PluginStatus::NoInfo => "no_info"@,
        }
    }

    /// The spelling in the JSON `status` field.
    pub fn as_str(self) -> (r: &'static str)
        ensures
            r@ == self.word(),
    {
        match self {
            PluginStatus::Compatible => "ok",
            PluginStatus::Outdated => "outdated",
            PluginStatus::NeedsNewerClove => "needs_newer_clove",
            PluginStatus::NoInfo => "no_info",
        }
    }

    /// Where the host stands in a plugin's range.
    pub open spec fn of(p: ProbeView) -> PluginStatus {
        if PLUGIN_API_VERSION > p.max_clove_plugin_api {
            PluginStatus::Outdated
        } else if PLUGIN_API_VERSION < p.min_clove_plugin_api {
            PluginStatus::NeedsNewerClove
        } else {
            PluginStatus::Compatible
        }
    }

    /// Classifies a plugin's range against the host's contract.
    pub fn classify(probed: &ProbedInfo) -> (r: PluginStatus)
        ensures
            r == PluginStatus::of(probed.deep_view()),
    {
        if PLUGIN_API_VERSION > probed.max_clove_plugin_api {
            PluginStatus::Outdated
        } else if PLUGIN_API_VERSION < probed.min_clove_plugin_api {
            PluginStatus::NeedsNewerClove
        } else {
            PluginStatus::Compatible
        }
    }
}

/// A plugin is compatible exactly when the host's version lies in its range.
pub proof fn law_compatible_means_in_range(p: ProbeView)
    ensures
        PluginStatus::of(p) == PluginStatus::Compatible <==> p.min_clove_plugin_api <= PLUGIN_API_VERSION
            <= p.max_clove_plugin_api,
        PluginStatus::of(p) != PluginStatus::NoInfo,
{
}

/// An answer that leaves the compatibility fields out is compatible.
pub proof fn law_silence_on_the_api_is_compatible(v: JsonView)
    requires
        v.member("clove_plugin_api"@) is None,
        v.member("min_clove_plugin_api"@) is None,
        v.member("max_clove_plugin_api"@) is None,
    ensures
        PluginStatus::of(probe_of(v)) == PluginStatus::Compatible,
{
}

/// An installed plugin with what it says of itself.
#[derive(Debug, PartialEq, Eq)]
pub struct EnrichedPlugin {
    pub info: PluginInfo,
    /// What the plugin answered, or `None` when it did not.
    pub probed: Option<ProbedInfo>,
    pub status: PluginStatus,
    /// The `clove …` invocations this plugin answers.
    pub commands: Vec<String>,
}

/// The model of an [`EnrichedPlugin`].
pub struct EnrichedView {
    pub info: InfoView,
    pub probed: Option<ProbeView>,
    pub status: PluginStatus,
    pub commands: Seq<Seq<char>>,
}

impl DeepView for EnrichedPlugin {
    type V = EnrichedView;

    open spec fn deep_view(&self) -> EnrichedView {
        EnrichedView {
            info: self.info.deep_view(),
            probed: self.probed.deep_view(),
            status: self.status,
            commands: self.commands.deep_view(),
        }
    }
}

/// The command line that a dispatch token stands for.
pub open spec fn token_command(token: Seq<char>) -> Seq<char> {
    match text::cut(token, ':') {
        Some((mux, provider)) => "clove "@ + mux + " "@ + provider,
        None => "clove "@ + token,
    }
}

/// What follows `<mux>-` in a name, if anything does.
pub open spec fn provider_of(name: Seq<char>, mux: Seq<char>) -> Option<Seq<char>> {
    match text::behind(name, mux + "-"@) {
        Some(rest) => if rest.len() > 0 {
            Some(rest)
        } else {
            None
        },
        None => None,
    }
}

/// The command line that a binary's name alone suggests.
pub open spec fn name_command(name: Seq<char>) -> Seq<char> {
    if provider_of(name, "sync"@) is Some {
        "clove sync "@ + provider_of(name, "sync"@)->0
    } else if provider_of(name, "import"@) is Some {
        "clove import "@ + provider_of(name, "import"@)->0
    } else if provider_of(name, "export"@) is Some {
        "clove export "@ + provider_of(name, "export"@)->0
    } else {
        "clove "@ + name
    }
}

/// The command lines that reach a plugin: those of its tokens, or else the one that
/// its name suggests.
pub open spec fn reached_as(provides: Seq<Seq<char>>, name: Seq<char>) -> Seq<Seq<char>> {
    if provides.len() > 0 {
        Seq::new(provides.len(), |i: int| token_command(provides[i]))
    } else {
        seq![name_command(name)]
    }
}

fn provider_behind<'a>(name: &'a str, prefix: &str) -> (r: Option<&'a str>)
    ensures
        text::opt_view(r) == (match text::behind(name@, prefix@) {
            Some(rest) => if rest.len() > 0 {
                Some(rest)
            } else {
                None
            },
            None => None,
        }),
{
    match text::strip_prefix(name, prefix) {
        Some(rest) => if rest.is_empty() {
            None
        } else {
            Some(rest)
        },
        None => None,
    }
}

fn command_of_name(name: &str) -> (r: String)
    ensures
        r@ == name_command(name@),
{
    proof {
        reveal_strlit("sync");
        reveal_strlit("import");
        reveal_strlit("export");
        reveal_strlit("-");
        reveal_strlit("sync-");
        reveal_strlit("import-");
        reveal_strlit("export-");
        assert("sync"@ + "-"@ =~= "sync-"@);
        assert("import"@ + "-"@ =~= "import-"@);
        assert("export"@ + "-"@ =~= "export-"@);
    }
    if let Some(rest) = provider_behind(name, "sync-") {
        return text::cat2("clove sync ", rest);
    }
    if let Some(rest) = provider_behind(name, "import-") {
        return text::cat2("clove import ", rest);
    }
    if let Some(rest) = provider_behind(name, "export-") {
        return text::cat2("clove export ", rest);
    }
    text::cat2("clove ", name)
}

/// Maps a plugin's `provides` tokens to the `clove …` command lines that reach it. A
/// `<mux>:<provider>` token becomes `clove <mux> <provider>`. With no tokens, the
/// name decides: a `sync-`, `import-` or `export-` prefix is split off, and anything
/// else is a generic `clove <name>`.
pub fn run_as(provides: &Vec<String>, name: &str) -> (r: Vec<String>)
    ensures
        r.deep_view() == reached_as(provides.deep_view(), name@),
{
    if provides.len() == 0 {
        let r: Vec<String> = vec![command_of_name(name)];
        assert(r.deep_view() =~= reached_as(provides.deep_view(), name@));
        return r;
    }
    let ghost all = provides.deep_view();
    let mut out: Vec<String> = Vec::new();
    let mut i: usize = 0;
    while i < provides.len()
        invariant
            i <= provides.len(),
            all == provides.deep_view(),
            out.len() == i,
            forall|j: int| 0 <= j < i ==> (#[trigger] out@[j])@ == token_command(all[j]),
        decreases provides.len() - i,
    {
        let token = provides[i].as_str();
        assert(all[i as int] == token@);
        let line = match text::split_once(token, ':') {
            Some((mux, provider)) => text::cat4("clove ", mux, " ", provider),
            None => text::cat2("clove ", token),
        };
        out.push(line);
        i += 1;
    }
    assert(out.deep_view() =~= reached_as(all, name@));
    out
}

/// A plugin with what it says of itself.
pub open spec fn enriched(info: InfoView, probed: Option<ProbeView>) -> EnrichedView {
    EnrichedView {
        info,
        probed,
        status: match probed {
            Some(p) => PluginStatus::of(p),
            None => PluginStatus::NoInfo,
        },
        commands: reached_as(
            match probed {
                Some(p) => p.provides,
                None => Seq::empty(),
            },
            info.name,
        ),
    }
}

/// Puts a plugin's answer beside the plugin.
pub fn enrich(info: PluginInfo, probed: Option<ProbedInfo>) -> (r: EnrichedPlugin)
    ensures
        r.deep_view() == enriched(info.deep_view(), probed.deep_view()),
{
    let status = match &probed {
        Some(p) => PluginStatus::classify(p),
        None => PluginStatus::NoInfo,
    };
    let commands = match &probed {
        Some(p) => run_as(&p.provides, info.name.as_str()),
        None => {
            let none: Vec<String> = Vec::new();
            assert(none.deep_view() =~= Seq::<Seq<char>>::empty());
            run_as(&none, info.name.as_str())
        },
    };
    EnrichedPlugin { info, probed, status, commands }
}

/// The plugins with their answers, in the order of the plugins. A plugin beyond the
/// answers did not answer.
pub open spec fn enriched_all(
    infos: Seq<InfoView>,
    answers: Seq<Option<ProbeView>>,
) -> Seq<EnrichedView> {
    Seq::new(
        infos.len(),
        |i: int|
            enriched(
                infos[i],
                if i < answers.len() {
                    answers[i]
                } else {
                    None
                },
            ),
    )
}

/// The installed plugins, each with its answer.
pub fn list_enriched(infos: &Vec<PluginInfo>, answers: &Vec<Option<ProbedInfo>>) -> (r: Vec<
    EnrichedPlugin,
>)
    ensures
        r.deep_view() == enriched_all(infos.deep_view(), answers.deep_view()),
{
    let ghost all = infos.deep_view();
    let ghost given = answers.deep_view();
    let mut out: Vec<EnrichedPlugin> = Vec::new();
    let mut i: usize = 0;
    while i < infos.len()
        invariant
            i <= infos.len(),
            all == infos.deep_view(),
            given == answers.deep_view(),
            out.len() == i,
            forall|j: int|
                0 <= j < i ==> (#[trigger] out@[j]).deep_view() == enriched_all(all, given)[j],
        decreases infos.len() - i,
    {
        assert(all[i as int] == infos@[i as int].deep_view());
        let answer: Option<ProbedInfo> = if i < answers.len() {
            assert(given[i as int] == answers@[i as int].deep_view());
            match &answers[i] {
                Some(p) => Some(p.clone()),
                None => None,
            }
        } else {
            None
        };
        out.push(enrich(infos[i].clone(), answer));
        i += 1;
    }
    assert(out.deep_view() =~= enriched_all(all, given));
    out
}

// ---- The environment of a plugin ----------------------------------------------

/// The word for a color preference.
pub open spec fn color_word(color: ColorChoice) -> Seq<char> {
    match color {
        ColorChoice::Auto => "auto"@,
        ColorChoice::Always => "always"@,
        ColorChoice::Never => "never"@,
    }
}

/// The spelling of a [`ColorChoice`] in `$CLOVE_COLOR`.
pub fn color_wire(color: ColorChoice) -> (r: &'static str)
    ensures
        r@ == color_word(color),
{
    match color {
        ColorChoice::Auto => "auto",
        ColorChoice::Always => "always",
        ColorChoice::Never => "never",
    }
}

/// `1` for true, `0` for false.
pub open spec fn bool_word(value: bool) -> Seq<char> {
    if value {
        "1"@
    } else {
        "0"@
    }
}

/// The spelling of a boolean variable: exactly `0` or `1`.
pub fn bool_wire(value: bool) -> (r: &'static str)
    ensures
        r@ == bool_word(value),
{
    if value {
        "1"
    } else {
        "0"
    }
}

/// A variable of the environment: its name, and its value or, where it is to be
/// removed, none.
pub open spec fn variables(v: Seq<(String, Option<String>)>) -> Seq<(Seq<char>, Option<Seq<char>>)> {
    Seq::new(v.len(), |i: int| (v[i].0@, v[i].1.deep_view()))
}

/// The environment of a plugin. `sync_dir` and `config_path` are the two files below
/// the `.clove` directory that are not part of the context. The provider's variable is
/// removed where there is no provider, so that one from outside cannot leak in.
pub open spec fn environment(
    clove_bin: Option<Seq<char>>,
    version: Seq<char>,
    ctx: crate::context::CtxView,
    sync_dir: Seq<char>,
    config_path: Seq<char>,
    globals: PluginGlobals,
    command: Seq<char>,
    provider: Option<Seq<char>>,
) -> Seq<(Seq<char>, Option<Seq<char>>)> {
    seq![
        (
            "CLOVE"@,
            Some(
                match clove_bin {
                    Some(b) => b,
                    None => "clove"@,
                },
            ),
        ),
        ("CLOVE_VERSION"@, Some(version)),
        ("CLOVE_SCHEMA"@, Some(text::decimal(CURRENT_SCHEMA_VERSION as nat))),
        ("CLOVE_PLUGIN_API"@, Some(text::decimal(PLUGIN_API_VERSION as nat))),
        ("CLOVE_COMMAND"@, Some(command)),
        ("CLOVE_PROVIDER"@, provider),
        ("CLOVE_DIR"@, Some(ctx.clove_dir)),
        ("CLOVE_ROOT"@, Some(ctx.root)),
        ("CLOVE_ISSUES_DIR"@, Some(ctx.issues_dir)),
        ("CLOVE_DB_PATH"@, Some(ctx.db_path)),
        ("CLOVE_SYNC_DIR"@, Some(sync_dir)),
        ("CLOVE_CONFIG_PATH"@, Some(config_path)),
        ("CLOVE_ID_PREFIX"@, Some(ctx.id_prefix)),
        ("CLOVE_FORMAT"@, Some(globals.format.word())),
        ("CLOVE_COLOR"@, Some(color_word(globals.color))),
        ("CLOVE_QUIET"@, Some(bool_word(globals.quiet))),
        ("CLOVE_NO_INDEX"@, Some(bool_word(globals.no_index))),
        ("CLOVE_DEEP"@, Some(bool_word(globals.deep))),
    ]
}

fn variable(name: &str, value: &str) -> (r: (String, Option<String>))
    ensures
        r.0@ == name@,
        r.1.deep_view() == Some(value@),
{
    (name.to_owned(), Some(value.to_owned()))
}

/// The environment that a plugin is started in: every value is the resolved one that
/// the host computed, so that the plugin cannot disagree with it. `clove_bin` is the
/// path of the running binary, where it is known.
#[verifier::rlimit(40)]
pub fn export_env(
    clove_bin: Option<&str>,
    version: &str,
    ctx: &Ctx,
    globals: &PluginGlobals,
    command: &str,
    provider: Option<&str>,
) -> (r: Vec<(String, Option<String>)>)
    ensures
        exists|sync_dir: Seq<char>, config_path: Seq<char>|
            #[trigger] path::extends(ctx.clove_dir@, "sync"@, sync_dir) && #[trigger] path::extends(
                ctx.clove_dir@,
                "config.toml"@,
                config_path,
            ) && variables(r@) == environment(
                text::opt_view(clove_bin),
                version@,
                ctx.deep_view(),
                sync_dir,
                config_path,
                *globals,
                command@,
                text::opt_view(provider),
            ),
{
    proof {
        reveal_strlit("sync");
        reveal_strlit("config.toml");
    }
    let sync_dir = path::join(ctx.clove_dir.as_str(), "sync");
    let config_path = path::join(ctx.clove_dir.as_str(), "config.toml");
    let host: &str = match clove_bin {
        Some(b) => b,
        None => "clove",
    };
    let schema = text::decimal_of(CURRENT_SCHEMA_VERSION as u64);
    let api = text::decimal_of(PLUGIN_API_VERSION as u64);
    let provider_value: Option<String> = match provider {
        Some(p) => Some(p.to_owned()),
        None => None,
    };
    let env: Vec<(String, Option<String>)> = vec![
        variable("CLOVE", host),
        variable("CLOVE_VERSION", version),
        variable("CLOVE_SCHEMA", schema.as_str()),
        variable("CLOVE_PLUGIN_API", api.as_str()),
        variable("CLOVE_COMMAND", command),
        ("CLOVE_PROVIDER".to_owned(), provider_value),
        variable("CLOVE_DIR", ctx.clove_dir.as_str()),
        variable("CLOVE_ROOT", ctx.root.as_str()),
        variable("CLOVE_ISSUES_DIR", ctx.issues_dir.as_str()),
        variable("CLOVE_DB_PATH", ctx.db_path.as_str()),
        variable("CLOVE_SYNC_DIR", sync_dir.as_str()),
        variable("CLOVE_CONFIG_PATH", config_path.as_str()),
        variable("CLOVE_ID_PREFIX", ctx.id_prefix.as_str()),
        variable("CLOVE_FORMAT", globals.format.as_str()),
        variable("CLOVE_COLOR", color_wire(globals.color)),
        variable("CLOVE_QUIET", bool_wire(globals.quiet)),
        variable("CLOVE_NO_INDEX", bool_wire(globals.no_index)),
        variable("CLOVE_DEEP", bool_wire(globals.deep)),
    ];
    assert(variables(env@) =~= environment(
        text::opt_view(clove_bin),
        version@,
        ctx.deep_view(),
        sync_dir@,
        config_path@,
        *globals,
        command@,
        text::opt_view(provider),
    ));
    env
}

/// The arguments of a plugin: the subcommand it was reached by, then its own.
pub fn plugin_argv(echo: &Vec<String>, rest: &Vec<String>) -> (r: Vec<String>)
    ensures
        r.deep_view() == echo.deep_view() + rest.deep_view(),
{
    let mut argv: Vec<String> = Vec::new();
    push_all(&mut argv, echo);
    push_all(&mut argv, rest);
    assert(argv.deep_view() =~= echo.deep_view() + rest.deep_view());
    argv
}

// ---- What a plugin is told ------------------------------------------------------

/// Does an environment give a variable this value, and no other?
pub open spec fn gives(
    env: Seq<(Seq<char>, Option<Seq<char>>)>,
    name: Seq<char>,
    value: Option<Seq<char>>,
) -> bool {
    &&& exists|k: int| 0 <= k < env.len() && #[trigger] env[k] == (name, value)
    &&& forall|k: int| 0 <= k < env.len() && (#[trigger] env[k]).0 == name ==> env[k].1 == value
}

/// The names of the variables, in their order.
pub open spec fn variable_names() -> Seq<Seq<char>> {
    seq![
        "CLOVE"@,
        "CLOVE_VERSION"@,
        "CLOVE_SCHEMA"@,
        "CLOVE_PLUGIN_API"@,
        "CLOVE_COMMAND"@,
        "CLOVE_PROVIDER"@,
        "CLOVE_DIR"@,
        "CLOVE_ROOT"@,
        "CLOVE_ISSUES_DIR"@,
        "CLOVE_DB_PATH"@,
        "CLOVE_SYNC_DIR"@,
        "CLOVE_CONFIG_PATH"@,
        "CLOVE_ID_PREFIX"@,
        "CLOVE_FORMAT"@,
        "CLOVE_COLOR"@,
        "CLOVE_QUIET"@,
        "CLOVE_NO_INDEX"@,
        "CLOVE_DEEP"@,
    ]
}

#[verifier::rlimit(60)]
#[verifier::spinoff_prover]
proof fn lemma_variables_differ()
    ensures
        forall|i: int, j: int|
            0 <= i < j < variable_names().len() ==> #[trigger] variable_names()[i]
                != #[trigger] variable_names()[j],
{
    reveal_strlit("CLOVE");
    reveal_strlit("CLOVE_VERSION");
    reveal_strlit("CLOVE_SCHEMA");
    reveal_strlit("CLOVE_PLUGIN_API");
    reveal_strlit("CLOVE_COMMAND");
    reveal_strlit("CLOVE_PROVIDER");
    reveal_strlit("CLOVE_DIR");
    reveal_strlit("CLOVE_ROOT");
    reveal_strlit("CLOVE_ISSUES_DIR");
    reveal_strlit("CLOVE_DB_PATH");
    reveal_strlit("CLOVE_SYNC_DIR");
    reveal_strlit("CLOVE_CONFIG_PATH");
    reveal_strlit("CLOVE_ID_PREFIX");
    reveal_strlit("CLOVE_FORMAT");
    reveal_strlit("CLOVE_COLOR");
    reveal_strlit("CLOVE_QUIET");
    reveal_strlit("CLOVE_NO_INDEX");
    reveal_strlit("CLOVE_DEEP");
    assert("CLOVE_VERSION"@[6] != "CLOVE_COMMAND"@[6]);
    assert("CLOVE_VERSION"@ != "CLOVE_COMMAND"@);
    assert("CLOVE_VERSION"@[6] != "CLOVE_DB_PATH"@[6]);
    assert("CLOVE_VERSION"@ != "CLOVE_DB_PATH"@);
    assert("CLOVE_SCHEMA"@[6] != "CLOVE_FORMAT"@[6]);
    assert("CLOVE_SCHEMA"@ != "CLOVE_FORMAT"@);
    assert("CLOVE_PLUGIN_API"@[6] != "CLOVE_ISSUES_DIR"@[6]);
    assert("CLOVE_PLUGIN_API"@ != "CLOVE_ISSUES_DIR"@);
    assert("CLOVE_COMMAND"@[6] != "CLOVE_DB_PATH"@[6]);
    assert("CLOVE_COMMAND"@ != "CLOVE_DB_PATH"@);
    assert("CLOVE_PROVIDER"@[6] != "CLOVE_SYNC_DIR"@[6]);
    assert("CLOVE_PROVIDER"@ != "CLOVE_SYNC_DIR"@);
    assert("CLOVE_PROVIDER"@[6] != "CLOVE_NO_INDEX"@[6]);
    assert("CLOVE_PROVIDER"@ != "CLOVE_NO_INDEX"@);
    assert("CLOVE_ROOT"@[6] != "CLOVE_DEEP"@[6]);
    assert("CLOVE_ROOT"@ != "CLOVE_DEEP"@);
    assert("CLOVE_SYNC_DIR"@[6] != "CLOVE_NO_INDEX"@[6]);
    assert("CLOVE_SYNC_DIR"@ != "CLOVE_NO_INDEX"@);
    assert("CLOVE_COLOR"@[6] != "CLOVE_QUIET"@[6]);
    assert("CLOVE_COLOR"@ != "CLOVE_QUIET"@);
    let v = variable_names();
    assert(v[0] == "CLOVE"@ && v[0].len() == 5);
    assert(v[1] == "CLOVE_VERSION"@ && v[1].len() == 13);
    assert(v[2] == "CLOVE_SCHEMA"@ && v[2].len() == 12);
    assert(v[3] == "CLOVE_PLUGIN_API"@ && v[3].len() == 16);
    assert(v[4] == "CLOVE_COMMAND"@ && v[4].len() == 13);
    assert(v[5] == "CLOVE_PROVIDER"@ && v[5].len() == 14);
    assert(v[6] == "CLOVE_DIR"@ && v[6].len() == 9);
    assert(v[7] == "CLOVE_ROOT"@ && v[7].len() == 10);
    assert(v[8] == "CLOVE_ISSUES_DIR"@ && v[8].len() == 16);
    assert(v[9] == "CLOVE_DB_PATH"@ && v[9].len() == 13);
    assert(v[10] == "CLOVE_SYNC_DIR"@ && v[10].len() == 14);
    assert(v[11] == "CLOVE_CONFIG_PATH"@ && v[11].len() == 17);
    assert(v[12] == "CLOVE_ID_PREFIX"@ && v[12].len() == 15);
    assert(v[13] == "CLOVE_FORMAT"@ && v[13].len() == 12);
    assert(v[14] == "CLOVE_COLOR"@ && v[14].len() == 11);
    assert(v[15] == "CLOVE_QUIET"@ && v[15].len() == 11);
    assert(v[16] == "CLOVE_NO_INDEX"@ && v[16].len() == 14);
    assert(v[17] == "CLOVE_DEEP"@ && v[17].len() == 10);
    assert(v[0] != v[1] && v[0] != v[2] && v[0] != v[3] && v[0] != v[4] && v[0] != v[5] && v[0] != v[6] && v[0] != v[7] && v[0] != v[8] && v[0] != v[9] && v[0] != v[10] && v[0] != v[11] && v[0] != v[12] && v[0] != v[13] && v[0] != v[14] && v[0] != v[15] && v[0] != v[16] && v[0] != v[17]);
    assert(v[1] != v[2] && v[1] != v[3] && v[1] != v[4] && v[1] != v[5] && v[1] != v[6] && v[1] != v[7] && v[1] != v[8] && v[1] != v[9] && v[1] != v[10] && v[1] != v[11] && v[1] != v[12] && v[1] != v[13] && v[1] != v[14] && v[1] != v[15] && v[1] != v[16] && v[1] != v[17]);
    assert(v[2] != v[3] && v[2] != v[4] && v[2] != v[5] && v[2] != v[6] && v[2] != v[7] && v[2] != v[8] && v[2] != v[9] && v[2] != v[10] && v[2] != v[11] && v[2] != v[12] && v[2] != v[13] && v[2] != v[14] && v[2] != v[15] && v[2] != v[16] && v[2] != v[17]);
    assert(v[3] != v[4] && v[3] != v[5] && v[3] != v[6] && v[3] != v[7] && v[3] != v[8] && v[3] != v[9] && v[3] != v[10] && v[3] != v[11] && v[3] != v[12] && v[3] != v[13] && v[3] != v[14] && v[3] != v[15] && v[3] != v[16] && v[3] != v[17]);
    assert(v[4] != v[5] && v[4] != v[6] && v[4] != v[7] && v[4] != v[8] && v[4] != v[9] && v[4] != v[10] && v[4] != v[11] && v[4] != v[12] && v[4] != v[13] && v[4] != v[14] && v[4] != v[15] && v[4] != v[16] && v[4] != v[17]);
    assert(v[5] != v[6] && v[5] != v[7] && v[5] != v[8] && v[5] != v[9] && v[5] != v[10] && v[5] != v[11] && v[5] != v[12] && v[5] != v[13] && v[5] != v[14] && v[5] != v[15] && v[5] != v[16] && v[5] != v[17]);
    assert(v[6] != v[7] && v[6] != v[8] && v[6] != v[9] && v[6] != v[10] && v[6] != v[11] && v[6] != v[12] && v[6] != v[13] && v[6] != v[14] && v[6] != v[15] && v[6] != v[16] && v[6] != v[17]);
    assert(v[7] != v[8] && v[7] != v[9] && v[7] != v[10] && v[7] != v[11] && v[7] != v[12] && v[7] != v[13] && v[7] != v[14] && v[7] != v[15] && v[7] != v[16] && v[7] != v[17]);
    assert(v[8] != v[9] && v[8] != v[10] && v[8] != v[11] && v[8] != v[12] && v[8] != v[13] && v[8] != v[14] && v[8] != v[15] && v[8] != v[16] && v[8] != v[17]);
    assert(v[9] != v[10] && v[9] != v[11] && v[9] != v[12] && v[9] != v[13] && v[9] != v[14] && v[9] != v[15] && v[9] != v[16] && v[9] != v[17]);
    assert(v[10] != v[11] && v[10] != v[12] && v[10] != v[13] && v[10] != v[14] && v[10] != v[15] && v[10] != v[16] && v[10] != v[17]);
    assert(v[11] != v[12] && v[11] != v[13] && v[11] != v[14] && v[11] != v[15] && v[11] != v[16] && v[11] != v[17]);
    assert(v[12] != v[13] && v[12] != v[14] && v[12] != v[15] && v[12] != v[16] && v[12] != v[17]);
    assert(v[13] != v[14] && v[13] != v[15] && v[13] != v[16] && v[13] != v[17]);
    assert(v[14] != v[15] && v[14] != v[16] && v[14] != v[17]);
    assert(v[15] != v[16] && v[15] != v[17]);
    assert(v[16] != v[17]);
    assert forall|i: int, j: int| 0 <= i < j < v.len() implies #[trigger] v[i] != #[trigger] v[j] by {
        assert(i == 0 || i == 1 || i == 2 || i == 3 || i == 4 || i == 5 || i == 6 || i == 7 || i == 8 || i == 9 || i == 10 || i == 11 || i == 12 || i == 13 || i == 14 || i == 15 || i == 16);
        assert(j == 1 || j == 2 || j == 3 || j == 4 || j == 5 || j == 6 || j == 7 || j == 8 || j == 9 || j == 10 || j == 11 || j == 12 || j == 13 || j == 14 || j == 15 || j == 16 || j == 17);
    }
}

proof fn lemma_given(env: Seq<(Seq<char>, Option<Seq<char>>)>, k: int)
    requires
        env.len() == variable_names().len(),
        forall|i: int| 0 <= i < env.len() ==> (#[trigger] env[i]).0 == variable_names()[i],
        0 <= k < env.len(),
    ensures
        gives(env, env[k].0, env[k].1),
{
    lemma_variables_differ();
    assert(env[k] == (env[k].0, env[k].1));
    assert forall|i: int| 0 <= i < env.len() && (#[trigger] env[i]).0 == env[k].0 implies env[i].1
        == env[k].1 by {
        assert(variable_names()[i] == variable_names()[k]);
        if i < k {
            assert(variable_names()[i] != variable_names()[k]);
        } else if k < i {
            assert(variable_names()[k] != variable_names()[i]);
        }
    }
}

/// A plugin is told what the host resolved, each thing under its own variable: who runs it
/// and as what, where the repository is, and how it was asked to print.
#[verifier::rlimit(40)]
pub proof fn law_a_plugin_is_told_what_the_host_resolved(
    clove_bin: Option<Seq<char>>,
    version: Seq<char>,
    ctx: crate::context::CtxView,
    sync_dir: Seq<char>,
    config_path: Seq<char>,
    globals: PluginGlobals,
    command: Seq<char>,
    provider: Option<Seq<char>>,
)
    ensures
        ({
            let env = environment(
                clove_bin,
                version,
                ctx,
                sync_dir,
                config_path,
                globals,
                command,
                provider,
            );
            &&& clove_bin is Some ==> gives(env, "CLOVE"@, clove_bin)
            &&& clove_bin is None ==> gives(env, "CLOVE"@, Some("clove"@))
            &&& gives(env, "CLOVE_VERSION"@, Some(version))
            &&& gives(env, "CLOVE_SCHEMA"@, Some(text::decimal(CURRENT_SCHEMA_VERSION as nat)))
            &&& gives(env, "CLOVE_PLUGIN_API"@, Some(text::decimal(PLUGIN_API_VERSION as nat)))
            &&& gives(env, "CLOVE_COMMAND"@, Some(command))
            &&& gives(env, "CLOVE_PROVIDER"@, provider)
            &&& gives(env, "CLOVE_DIR"@, Some(ctx.clove_dir))
            &&& gives(env, "CLOVE_ROOT"@, Some(ctx.root))
            &&& gives(env, "CLOVE_ISSUES_DIR"@, Some(ctx.issues_dir))
            &&& gives(env, "CLOVE_DB_PATH"@, Some(ctx.db_path))
            &&& gives(env, "CLOVE_SYNC_DIR"@, Some(sync_dir))
            &&& gives(env, "CLOVE_CONFIG_PATH"@, Some(config_path))
            &&& gives(env, "CLOVE_ID_PREFIX"@, Some(ctx.id_prefix))
            &&& gives(env, "CLOVE_FORMAT"@, Some(globals.format.word()))
            &&& gives(
                env,
                "CLOVE_COLOR"@,
                Some(
                    match globals.color {
                        ColorChoice::Auto => "auto"@,
                        ColorChoice::Always => "always"@,
                        ColorChoice::Never => "never"@,
                    },
                ),
            )
            &&& gives(env, "CLOVE_QUIET"@, Some(if globals.quiet { "1"@ } else { "0"@ }))
            &&& gives(env, "CLOVE_NO_INDEX"@, Some(if globals.no_index { "1"@ } else { "0"@ }))
            &&& gives(env, "CLOVE_DEEP"@, Some(if globals.deep { "1"@ } else { "0"@ }))
        }),
{
    let env = environment(
        clove_bin,
        version,
        ctx,
        sync_dir,
        config_path,
        globals,
        command,
        provider,
    );
    let v = variable_names();
    assert(env[0].0 == v[0] && env[1].0 == v[1] && env[2].0 == v[2] && env[3].0 == v[3] && env[4].0 == v[4] && env[5].0 == v[5] && env[6].0 == v[6] && env[7].0 == v[7] && env[8].0 == v[8] && env[9].0 == v[9] && env[10].0 == v[10] && env[11].0 == v[11] && env[12].0 == v[12] && env[13].0 == v[13] && env[14].0 == v[14] && env[15].0 == v[15] && env[16].0 == v[16] && env[17].0 == v[17]);
    assert forall|i: int| 0 <= i < env.len() implies (#[trigger] env[i]).0 == v[i] by {
        assert(i == 0 || i == 1 || i == 2 || i == 3 || i == 4 || i == 5 || i == 6 || i == 7 || i == 8 || i == 9 || i == 10 || i == 11 || i == 12 || i == 13 || i == 14 || i == 15 || i == 16 || i == 17);
    }
    lemma_given(env, 0);
    lemma_given(env, 1);
    lemma_given(env, 2);
    lemma_given(env, 3);
    lemma_given(env, 4);
    lemma_given(env, 5);
    lemma_given(env, 6);
    lemma_given(env, 7);
    lemma_given(env, 8);
    lemma_given(env, 9);
    lemma_given(env, 10);
    lemma_given(env, 11);
    lemma_given(env, 12);
    lemma_given(env, 13);
    lemma_given(env, 14);
    lemma_given(env, 15);
    lemma_given(env, 16);
    lemma_given(env, 17);
}

proof fn lemma_extended_ends(base: Seq<char>, part: Seq<char>, path: Seq<char>)
    requires
        path::extends(base, part, path),
        part.len() > 0,
    ensures
        path.len() > 0,
        path.last() == part.last(),
{
    if text::begins(base, seq!['\\', '\\']) {
        assert(path.skip(path.len() - part.len()).last() == part.last());
    }
}

/// The paths that a plugin is told are the entries of the directory that it is told: the
/// items in `issues`, the index, the directory of the sync state and the configuration. No
/// two of them are the same.
pub proof fn law_a_plugin_is_told_the_entries_of_the_directory(
    clove_bin: Option<Seq<char>>,
    version: Seq<char>,
    ctx: crate::context::CtxView,
    sync_dir: Seq<char>,
    config_path: Seq<char>,
    globals: PluginGlobals,
    command: Seq<char>,
    provider: Option<Seq<char>>,
    dir: Seq<char>,
    issues: Seq<char>,
    db: Seq<char>,
    sync: Seq<char>,
    config: Seq<char>,
)
    requires
        path::extends(ctx.clove_dir, "issues"@, ctx.issues_dir),
        path::extends(ctx.clove_dir, "index.db"@, ctx.db_path),
        path::extends(ctx.clove_dir, "sync"@, sync_dir),
        path::extends(ctx.clove_dir, "config.toml"@, config_path),
        ({
            let env = environment(
                clove_bin,
                version,
                ctx,
                sync_dir,
                config_path,
                globals,
                command,
                provider,
            );
            &&& gives(env, "CLOVE_DIR"@, Some(dir))
            &&& gives(env, "CLOVE_ISSUES_DIR"@, Some(issues))
            &&& gives(env, "CLOVE_DB_PATH"@, Some(db))
            &&& gives(env, "CLOVE_SYNC_DIR"@, Some(sync))
            &&& gives(env, "CLOVE_CONFIG_PATH"@, Some(config))
        }),
    ensures
        path::extends(dir, "issues"@, issues),
        path::extends(dir, "index.db"@, db),
        path::extends(dir, "sync"@, sync),
        path::extends(dir, "config.toml"@, config),
        issues != db && issues != sync && issues != config,
        db != sync && db != config && sync != config,
        dir == ctx.clove_dir,
{
    law_a_plugin_is_told_what_the_host_resolved(
        clove_bin,
        version,
        ctx,
        sync_dir,
        config_path,
        globals,
        command,
        provider,
    );
    reveal_strlit("issues");
    reveal_strlit("index.db");
    reveal_strlit("sync");
    reveal_strlit("config.toml");
    lemma_extended_ends(ctx.clove_dir, "issues"@, ctx.issues_dir);
    lemma_extended_ends(ctx.clove_dir, "index.db"@, ctx.db_path);
    lemma_extended_ends(ctx.clove_dir, "sync"@, sync_dir);
    lemma_extended_ends(ctx.clove_dir, "config.toml"@, config_path);
    assert("issues"@.last() == 's' && "index.db"@.last() == 'b' && "sync"@.last() == 'c'
        && "config.toml"@.last() == 'l');
}

// ---- Finding and asking plugins -------------------------------------------------

/// The plugin that runs is the first that can: none of the files in front of it can be run.
pub proof fn law_the_first_runnable_file_runs(files: Seq<Seq<char>>, runnable: Seq<bool>, k: int)
    requires
        0 <= k < files.len(),
        k < runnable.len(),
        runnable[k],
        forall|j: int| 0 <= j < k ==> !#[trigger] runnable[j],
    ensures
        first_runnable(files, runnable) == Some(files[k]),
    decreases k,
{
    if k > 0 {
        assert(!runnable[0]);
        let f = files.drop_first();
        let r = runnable.drop_first();
        assert forall|j: int| 0 <= j < k - 1 implies !#[trigger] r[j] by {
            assert(r[j] == runnable[j + 1]);
        }
        law_the_first_runnable_file_runs(f, r, k - 1);
    }
}

/// Plugins are looked for beside clove itself first, then where the plugin path says, then in
/// clove's own directory, and last along the path; each list keeps its order.
pub proof fn law_plugins_are_looked_for_in_order(
    exe_dir: Seq<char>,
    plugin_path: Seq<Seq<char>>,
    home_bin: Seq<char>,
    path: Seq<Seq<char>>,
    i: int,
    j: int,
)
    ensures
        ({
            let all = searched(Some(exe_dir), plugin_path, Some(home_bin), path);
            &&& all[0] == exe_dir
            &&& all.len() == plugin_path.len() + path.len() + 2
            &&& 0 <= i < plugin_path.len() ==> all[i + 1] == plugin_path[i]
            &&& all[plugin_path.len() as int + 1] == home_bin
            &&& 0 <= j < path.len() ==> all[plugin_path.len() as int + 2 + j] == path[j]
        }),
        searched(None, plugin_path, None, path) == plugin_path + path,
{
    assert(searched(None, plugin_path, None, path) =~= plugin_path + path);
}

/// The file of a command is clove's name and the command's words, joined by dashes.
pub proof fn law_a_binary_is_named_after_its_words(
    a: Seq<char>,
    b: Seq<char>,
    exe_suffix: Seq<char>,
)
    ensures
        binary(seq![a], exe_suffix) == "clove-"@ + a + exe_suffix,
        binary(seq![a, b], exe_suffix) == "clove-"@ + (a + "-"@ + b) + exe_suffix,
{
    assert(seq![a, b].drop_last() =~= seq![a]);
    reveal_with_fuel(text::joined, 3);
}

/// The texts among some values are all of them, and nothing else.
pub proof fn law_texts_among_values_are_kept(items: Seq<JsonView>, s: Seq<char>)
    ensures
        texts_among(items).contains(s) <==> items.contains(JsonView::Text(s)),
    decreases items.len(),
{
    if items.len() > 0 {
        let init = items.drop_last();
        law_texts_among_values_are_kept(init, s);
        let rest = texts_among(init);
        let all = texts_among(items);
        if all.contains(s) {
            let k = choose|k: int| 0 <= k < all.len() && all[k] == s;
            if k < rest.len() {
                assert(rest[k] == s);
                let i = choose|i: int| 0 <= i < init.len() && init[i] == JsonView::Text(s);
                assert(items[i] == JsonView::Text(s));
            } else {
                assert(items[items.len() - 1] == JsonView::Text(s));
            }
        }
        if items.contains(JsonView::Text(s)) {
            let i = choose|i: int| 0 <= i < items.len() && items[i] == JsonView::Text(s);
            if i < init.len() {
                assert(init[i] == items[i]);
                let k = choose|k: int| 0 <= k < rest.len() && rest[k] == s;
                assert(all[k] == s);
            } else {
                assert(all[rest.len() as int] == s);
            }
        }
    }
}

/// What a plugin says of itself is read from under its own keys; a bound that it leaves out
/// is the interface that it was made for, and what else it leaves out is empty.
pub proof fn law_a_plugin_is_what_it_says(v: JsonView, s: Seq<char>, n: u64)
    requires
        n <= u32::MAX,
    ensures
        v.member("version"@) == Some(JsonView::Text(s)) ==> probe_of(v).version == s,
        v.member("about"@) == Some(JsonView::Text(s)) ==> probe_of(v).about == s,
        v.member("version"@) is None ==> probe_of(v).version.len() == 0,
        v.member("about"@) is None ==> probe_of(v).about.len() == 0,
        v.member("clove_plugin_api"@) matches Some(x) ==> (x.unsigned() == Some(n) ==> probe_of(
            v,
        ).clove_plugin_api == n),
        v.member("min_clove_plugin_api"@) matches Some(x) ==> (x.unsigned() == Some(n) ==> probe_of(
            v,
        ).min_clove_plugin_api == n),
        v.member("max_clove_plugin_api"@) matches Some(x) ==> (x.unsigned() == Some(n) ==> probe_of(
            v,
        ).max_clove_plugin_api == n),
        v.member("max_schema"@) matches Some(x) ==> (x.unsigned() == Some(n) ==> probe_of(
            v,
        ).max_schema == n),
        v.member("min_clove_plugin_api"@) is None ==> probe_of(v).min_clove_plugin_api == probe_of(
            v,
        ).clove_plugin_api,
        v.member("max_clove_plugin_api"@) is None ==> probe_of(v).max_clove_plugin_api == probe_of(
            v,
        ).clove_plugin_api,
        v.member("max_schema"@) is None ==> probe_of(v).max_schema == CURRENT_SCHEMA_VERSION,
        v.member("provides"@) matches Some(JsonView::Array(items)) ==> (probe_of(v).provides.contains(
            s,
        ) <==> items.contains(JsonView::Text(s))),
        v.member("provides"@) is None ==> probe_of(v).provides.len() == 0,
{
    if let Some(JsonView::Array(items)) = v.member("provides"@) {
        law_texts_among_values_are_kept(items, s);
    }
}

/// A plugin whose newest interface is behind this clove is outdated; one whose oldest is ahead
/// of it needs a newer clove; one that said nothing is not judged. Each has a word of its own.
pub proof fn law_a_plugin_is_judged_by_its_interface(info: InfoView, p: ProbeView)
    ensures
        enriched(info, Some(p)).status == PluginStatus::Outdated <==> p.max_clove_plugin_api
            < PLUGIN_API_VERSION,
        p.min_clove_plugin_api <= p.max_clove_plugin_api ==> (enriched(info, Some(p)).status
            == PluginStatus::NeedsNewerClove <==> p.min_clove_plugin_api > PLUGIN_API_VERSION),
        enriched(info, None).status == PluginStatus::NoInfo,
        enriched(info, Some(p)).status != PluginStatus::NoInfo,
        enriched(info, Some(p)).info == info && enriched(info, None).info == info,
        enriched(info, Some(p)).probed == Some(p) && enriched(info, None).probed is None,
        forall|a: PluginStatus, b: PluginStatus| #[trigger] a.word() == #[trigger] b.word() ==> a
            == b,
{
    reveal_strlit("ok");
    reveal_strlit("outdated");
    reveal_strlit("needs_newer_clove");
    reveal_strlit("no_info");
    assert("ok"@.len() == 2 && "outdated"@.len() == 8);
    assert("needs_newer_clove"@.len() == 17 && "no_info"@.len() == 7);
    assert forall|a: PluginStatus, b: PluginStatus| #[trigger] a.word() == #[trigger] b.word()
        implies a == b by {
        assert(a.word().len() == b.word().len());
    }
}

/// An answer counts only from a plugin that ended well.
pub proof fn law_only_a_successful_probe_counts(stdout: Option<Seq<char>>)
    ensures
        probe_answer(false, stdout) is None,
        probe_answer(true, None) is None,
        probe_answer(true, stdout) is Some ==> (json_parsed(text::trimmed(stdout->0)) matches Ok(v)
            && probe_answer(true, stdout) == Some(probe_of(v))),
{
}

/// Every plugin that was found is listed, in its order, with what it answered.
pub proof fn law_every_plugin_is_listed_with_its_answer(
    infos: Seq<InfoView>,
    answers: Seq<Option<ProbeView>>,
    i: int,
)
    requires
        0 <= i < infos.len(),
    ensures
        enriched_all(infos, answers).len() == infos.len(),
        enriched_all(infos, answers)[i].info == infos[i],
        i < answers.len() ==> enriched_all(infos, answers)[i].probed == answers[i],
        i >= answers.len() ==> enriched_all(infos, answers)[i].probed is None,
{
}

proof fn lemma_behind_of(front: Seq<char>, rest: Seq<char>)
    ensures
        text::behind(front + rest, front) == Some(rest),
{
    assert((front + rest).take(front.len() as int) =~= front);
    assert((front + rest).skip(front.len() as int) =~= rest);
}

/// A plugin is reached by what it provides: `sync:github` as `clove sync github`; and where it
/// says nothing, by its name: `sync-github` the same way, and any other as `clove` and it.
pub proof fn law_a_plugin_is_reached_as_it_says(
    provides: Seq<Seq<char>>,
    mux: Seq<char>,
    provider: Seq<char>,
    name: Seq<char>,
    i: int,
)
    requires
        !mux.contains(':'),
        provider.len() > 0,
    ensures
        provides.len() > 0 ==> reached_as(provides, name).len() == provides.len(),
        0 <= i < provides.len() && provides[i] == mux.push(':') + provider ==> reached_as(
            provides,
            name,
        )[i] == "clove "@ + mux + " "@ + provider,
        0 <= i < provides.len() && !provides[i].contains(':') ==> reached_as(provides, name)[i]
            == "clove "@ + provides[i],
        reached_as(Seq::empty(), "sync"@ + "-"@ + provider) == seq!["clove sync "@ + provider],
{
    if 0 <= i < provides.len() {
        let t = provides[i];
        text::lemma_first_index_means(t, ':');
        if t == mux.push(':') + provider {
            assert(t[mux.len() as int] == ':');
            let k = text::first_index(t, ':')->0;
            if k < mux.len() {
                assert(t[k] == mux[k]);
                assert(mux.contains(':'));
            }
            assert(k == mux.len());
            assert(t.take(k) =~= mux);
            assert(t.skip(k + 1) =~= provider);
        } else if !t.contains(':') {
            if let Some(k) = text::first_index(t, ':') {
                assert(t.contains(t[k]));
            }
        }
    }
    lemma_behind_of("sync"@ + "-"@, provider);
}

/// A plugin named after `import` or `export` and a provider is reached through that command.
pub proof fn law_importers_and_exporters_are_reached_by_provider(provider: Seq<char>)
    requires
        provider.len() > 0,
    ensures
        name_command("import"@ + "-"@ + provider) == "clove import "@ + provider,
        name_command("export"@ + "-"@ + provider) == "clove export "@ + provider,
        name_command("sync"@ + "-"@ + provider) == "clove sync "@ + provider,
{
    lemma_behind_of("import"@ + "-"@, provider);
    lemma_behind_of("export"@ + "-"@, provider);
    lemma_behind_of("sync"@ + "-"@, provider);
    reveal_strlit("import");
    reveal_strlit("export");
    reveal_strlit("sync");
    let a = "import"@ + "-"@ + provider;
    let b = "export"@ + "-"@ + provider;
    assert(a[0] == 'i' && b[0] == 'e');
    let s = "sync"@ + "-"@;
    let m = "import"@ + "-"@;
    assert(s[0] == 's' && m[0] == 'i');
    assert(a.take(s.len() as int)[0] == 'i');
    assert(b.take(s.len() as int)[0] == 'e');
    assert(b.take(m.len() as int)[0] == 'e');
}

/// A plugin is waited for until its time is up, and no longer.
pub proof fn law_a_plugin_has_its_time_to_answer(elapsed_ms: u64)
    ensures
        elapsed_ms < PROBE_TIMEOUT_MS ==> probe_awaited(elapsed_ms) == ProbeWait::Wait,
        elapsed_ms >= PROBE_TIMEOUT_MS ==> probe_awaited(elapsed_ms) == ProbeWait::GiveUp,
{
}

/// A word may be part of a plugin's name when it is one component: not empty, not the parent
/// directory, and without a separator.
pub proof fn law_a_segment_is_one_component(s: Seq<char>, a: Seq<char>, b: Seq<char>)
    ensures
        !is_segment(Seq::empty()) && !is_segment(".."@),
        !is_segment(a.push('/') + b) && !is_segment(a.push('\\') + b),
        s.len() > 0 && s != ".."@ && !s.contains('/') && !s.contains('\\') ==> is_segment(s),
{
    let x = a.push('/') + b;
    assert(x[a.len() as int] == '/');
    let y = a.push('\\') + b;
    assert(y[a.len() as int] == '\\');
}

/// The file that serves a command is the first that can be run and is named after it.
pub proof fn law_the_first_file_of_a_name_serves_it(
    entries: Seq<EntryView>,
    e: EntryView,
    exe_suffix: Seq<char>,
    name: Seq<char>,
)
    ensures
        first_file(Seq::empty(), exe_suffix, name) is None,
        first_file(entries, exe_suffix, name) is Some ==> first_file(
            entries.push(e),
            exe_suffix,
            name,
        ) == first_file(entries, exe_suffix, name),
        first_file(entries, exe_suffix, name) is None && e.executable && file_subcommand(
            e.file_name,
            exe_suffix,
        ) == Some(name) ==> first_file(entries.push(e), exe_suffix, name) == Some(e.path),
        !e.executable || file_subcommand(e.file_name, exe_suffix) != Some(name) ==> first_file(
            entries.push(e),
            exe_suffix,
            name,
        ) == first_file(entries, exe_suffix, name),
{
    assert(entries.push(e).drop_last() =~= entries);
}

} // verus!
