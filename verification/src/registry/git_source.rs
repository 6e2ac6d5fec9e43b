//! Installing a plugin from a git repository: which URLs and references may reach
//! git, which package of a repository is a plugin, and what cargo is told.

use vstd::prelude::*;

use crate::error::{
    invalid, invalid_field, registry_error, registry_failure, verdict, CloveError, ErrorView,
};
use crate::json::{Json, JsonView};
use crate::json_text::json_parsed;
use crate::order::{by_name, sort_named, sorted_by, Named};
use crate::registry::{is_bin_name, validate_bin_name};
use crate::text;

verus! {

/// How long any single git subprocess may run, in seconds.
pub const GIT_TIMEOUT_SECS: u64 = 120;

/// A package in a cloned repository that is installable as a clove plugin.
#[derive(Debug, PartialEq, Eq)]
pub struct GitPlugin {
    /// The cargo package name — what `cargo install --git … <package>` takes.
    pub package: String,
    /// The dispatchable binary it builds (`clove-sync-gitlab`).
    pub bin: String,
}

/// The model of a [`GitPlugin`].
pub struct GitPluginView {
    pub package: Seq<char>,
    pub bin: Seq<char>,
}

impl DeepView for GitPlugin {
    type V = GitPluginView;

    open spec fn deep_view(&self) -> GitPluginView {
        GitPluginView { package: self.package@, bin: self.bin@ }
    }
}

impl Named for GitPlugin {
    open spec fn label(v: GitPluginView) -> Seq<char> {
        v.package
    }

    fn name(&self) -> (r: &str) {
        self.package.as_str()
    }
}

// ---- What may reach git -------------------------------------------------------

/// Is `url` written `user@host:path`?
pub open spec fn is_scp_style(url: Seq<char>) -> bool {
    !text::occurs(url, "://"@) && url.contains(':') && url.contains('@')
}

/// Is `url`'s scheme one that a plugin repository plausibly uses?
pub open spec fn has_known_scheme(url: Seq<char>) -> bool {
    let lower = text::lowered(url);
    ||| text::begins(lower, "https://"@)
    ||| text::begins(lower, "http://"@)
    ||| text::begins(lower, "ssh://"@)
    ||| text::begins(lower, "git://"@)
    ||| text::begins(lower, "file://"@)
}

/// What is wrong with `url` as a git URL.
pub open spec fn git_url_problem(url: Seq<char>) -> Option<ErrorView> {
    if url.len() == 0 {
        Some(invalid_field("--git"@, "a git URL cannot be empty"@))
    } else if url[0] == '-' {
        Some(
            invalid_field(
                "--git"@,
                "a git URL cannot start with `-`: git would read it as an option, and several of those (--upload-pack, --template, --config) execute code"@,
            ),
        )
    } else if url.contains('\n') || url.contains('\r') {
        Some(invalid_field("--git"@, "a git URL cannot contain a newline"@))
    } else if text::begins(text::lowered(url), "ext::"@) {
        Some(
            invalid_field(
                "--git"@,
                "the `ext::` transport runs an arbitrary command and is not accepted"@,
            ),
        )
    } else if !has_known_scheme(url) && !is_scp_style(url) {
        Some(
            invalid_field(
                "--git"@,
                "unsupported git URL `"@ + url
                    + "` — expected https://, ssh://, git://, file://, or user@host:path"@,
            ),
        )
    } else {
        None
    }
}

/// Validates a `--git` argument. Only the transports a plugin repository plausibly
/// uses are accepted; a leading `-`, which git would read as an option, and the
/// `ext::` transport, which runs a command, are refused outright.
pub fn validate_git_url(url: &str) -> (r: Result<(), CloveError>)
    ensures
        verdict(r) == git_url_problem(url@),
{
    if url.is_empty() {
        return Err(invalid("--git", "a git URL cannot be empty".to_owned()));
    }
    if url.get_char(0) == '-' {
        return Err(
            invalid(
                "--git",
                "a git URL cannot start with `-`: git would read it as an option, and several of those (--upload-pack, --template, --config) execute code".to_owned(),
            ),
        );
    }
    if text::has_char(url, '\n') || text::has_char(url, '\r') {
        return Err(invalid("--git", "a git URL cannot contain a newline".to_owned()));
    }
    let lower = text::to_ascii_lowercase(url);
    let lower: &str = lower.as_str();
    if text::starts_with(lower, "ext::") {
        return Err(
            invalid(
                "--git",
                "the `ext::` transport runs an arbitrary command and is not accepted".to_owned(),
            ),
        );
    }
    let scp_style = !text::contains(url, "://") && text::has_char(url, ':') && text::has_char(
        url,
        '@',
    );
    let known_scheme = text::starts_with(lower, "https://") || text::starts_with(lower, "http://")
        || text::starts_with(lower, "ssh://") || text::starts_with(lower, "git://")
        || text::starts_with(lower, "file://");
    if !known_scheme && !scp_style {
        return Err(
            invalid(
                "--git",
                text::cat3(
                    "unsupported git URL `",
                    url,
                    "` — expected https://, ssh://, git://, file://, or user@host:path",
                ),
            ),
        );
    }
    Ok(())
}

/// Does `s` hold white space?
pub open spec fn has_space(s: Seq<char>) -> bool {
    exists|i: int| 0 <= i < s.len() && text::is_space(#[trigger] s[i])
}

/// Does `s` hold white space?
fn spaced(s: &str) -> (r: bool)
    ensures
        r == has_space(s@),
{
    let x = text::chars_of(s);
    let mut i: usize = 0;
    while i < x.len()
        invariant
            x@ == s@,
            i <= x.len(),
            forall|j: int| 0 <= j < i ==> !text::is_space(#[trigger] s@[j]),
        decreases x.len() - i,
    {
        if text::space(x[i]) {
            assert(text::is_space(s@[i as int]));
            return true;
        }
        i += 1;
    }
    false
}

/// May `value` stand in git's arguments as a reference?
pub open spec fn is_git_ref(value: Seq<char>) -> bool {
    value.len() > 0 && value[0] != '-' && !has_space(value)
}

/// What is wrong with a reference of some kind.
pub open spec fn git_ref_problem(kind: Seq<char>, value: Seq<char>) -> Option<ErrorView> {
    if is_git_ref(value) {
        None
    } else {
        Some(invalid_field(kind, "invalid "@ + kind + " `"@ + value + "`"@))
    }
}

/// Validates a `--tag`/`--rev`/`--branch` value, which also lands in git's arguments.
pub fn validate_git_ref(kind: &str, value: &str) -> (r: Result<(), CloveError>)
    ensures
        verdict(r) == git_ref_problem(kind@, value@),
{
    if value.is_empty() || value.get_char(0) == '-' || spaced(value) {
        return Err(invalid(kind, text::cat5("invalid ", kind, " `", value, "`")));
    }
    Ok(())
}

/// Nothing that passes validation can be read by git as an option.
pub proof fn law_git_arguments_are_no_options(url: Seq<char>, value: Seq<char>)
    ensures
        git_url_problem(url) is None ==> url.len() > 0 && url[0] != '-' && !url.contains('\n'),
        is_git_ref(value) ==> value[0] != '-',
{
}

/// Which revision of a repository to install.
#[derive(Debug, PartialEq, Eq)]
pub enum GitRef {
    Tag(String),
    Branch(String),
    Rev(String),
}

/// The model of a [`GitRef`].
pub enum GitRefView {
    Tag(Seq<char>),
    Branch(Seq<char>),
    Rev(Seq<char>),
}

impl DeepView for GitRef {
    type V = GitRefView;

    open spec fn deep_view(&self) -> GitRefView {
        match *self {
            GitRef::Tag(s) => GitRefView::Tag(s@),
            GitRef::Branch(s) => GitRefView::Branch(s@),
            GitRef::Rev(s) => GitRefView::Rev(s@),
        }
    }
}

impl GitRefView {
    /// The pair of arguments that tells cargo the reference.
    pub open spec fn cargo_pair(self) -> Seq<Seq<char>> {
        match self {
            GitRefView::Tag(v) => seq!["--tag"@, v],
            GitRefView::Branch(v) => seq!["--branch"@, v],
            GitRefView::Rev(v) => seq!["--rev"@, v],
        }
    }
}

impl GitRef {
    /// The `cargo install` flag pair for this reference.
    pub fn cargo_args(&self) -> (r: [String; 2])
        ensures
            seq![r@[0]@, r@[1]@] == self.deep_view().cargo_pair(),
    {
        match self {
            GitRef::Tag(v) => ["--tag".to_owned(), v.clone()],
            GitRef::Branch(v) => ["--branch".to_owned(), v.clone()],
            GitRef::Rev(v) => ["--rev".to_owned(), v.clone()],
        }
    }
}

/// The reference that the arguments of an install name: a tag, or else a revision, or
/// else a branch.
pub open spec fn chosen_ref(
    tag: Option<Seq<char>>,
    rev: Option<Seq<char>>,
    branch: Option<Seq<char>>,
) -> Result<Option<GitRefView>, ErrorView> {
    match (tag, rev, branch) {
        (Some(t), _, _) => if is_git_ref(t) {
            Ok(Some(GitRefView::Tag(t)))
        } else {
            Err(invalid_field("--tag"@, "invalid "@ + "--tag"@ + " `"@ + t + "`"@))
        },
        (None, Some(r), _) => if is_git_ref(r) {
            Ok(Some(GitRefView::Rev(r)))
        } else {
            Err(invalid_field("--rev"@, "invalid "@ + "--rev"@ + " `"@ + r + "`"@))
        },
        (None, None, Some(b)) => if is_git_ref(b) {
            Ok(Some(GitRefView::Branch(b)))
        } else {
            Err(invalid_field("--branch"@, "invalid "@ + "--branch"@ + " `"@ + b + "`"@))
        },
        (None, None, None) => Ok(None),
    }
}

/// The reference that the arguments of an install name.
pub fn choose_ref(tag: &Option<String>, rev: &Option<String>, branch: &Option<String>) -> (r:
    Result<Option<GitRef>, CloveError>)
    ensures
        crate::error::outcome(r) == chosen_ref(
            tag.deep_view(),
            rev.deep_view(),
            branch.deep_view(),
        ),
{
    if let Some(t) = tag {
        return match validate_git_ref("--tag", t.as_str()) {
            Ok(()) => Ok(Some(GitRef::Tag(t.clone()))),
            Err(e) => Err(e),
        };
    }
    if let Some(v) = rev {
        return match validate_git_ref("--rev", v.as_str()) {
            Ok(()) => Ok(Some(GitRef::Rev(v.clone()))),
            Err(e) => Err(e),
        };
    }
    if let Some(b) = branch {
        return match validate_git_ref("--branch", b.as_str()) {
            Ok(()) => Ok(Some(GitRef::Branch(b.clone()))),
            Err(e) => Err(e),
        };
    }
    Ok(None)
}

// ---- git's arguments ----------------------------------------------------------

/// The arguments of the probe that looks for a repository without cloning it.
pub fn probe_argv(url: &str) -> (r: Vec<String>)
    ensures
        r.deep_view() == seq!["ls-remote"@, "--exit-code"@, "--"@, url@],
{
    let argv: Vec<String> = vec![
        "ls-remote".to_owned(),
        "--exit-code".to_owned(),
        "--".to_owned(),
        url.to_owned(),
    ];
    assert(argv.deep_view() =~= seq!["ls-remote"@, "--exit-code"@, "--"@, url@]);
    argv
}

/// The arguments of a shallow clone. A tag or a branch is fetched directly; a bare
/// revision is fetched afterwards.
pub open spec fn clone_args(url: Seq<char>, reference: Option<GitRefView>, dest: Seq<char>) -> Seq<
    Seq<char>,
> {
    seq![
        "clone"@,
        "--filter=blob:none"@,
        "--depth"@,
        "1"@,
        "--no-checkout"@,
        "--no-tags"@,
        "--quiet"@,
    ] + (match reference {
        Some(GitRefView::Tag(t)) => seq!["--branch"@, t],
        Some(GitRefView::Branch(t)) => seq!["--branch"@, t],
        _ => Seq::empty(),
    }) + seq!["--"@, url, dest]
}

/// The model of a borrowed reference.
pub open spec fn ref_view(reference: Option<&GitRef>) -> Option<GitRefView> {
    match reference {
        Some(r) => Some(r.deep_view()),
        None => None,
    }
}

/// The arguments of the shallow clone that a repository is inspected in. Submodules
/// are not fetched, and the tree is checked out afterwards.
pub fn clone_argv(url: &str, reference: Option<&GitRef>, dest: &str) -> (r: Vec<String>)
    ensures
        r.deep_view() == clone_args(url@, ref_view(reference), dest@),
{
    let mut args: Vec<String> = vec![
        "clone".to_owned(),
        "--filter=blob:none".to_owned(),
        "--depth".to_owned(),
        "1".to_owned(),
        "--no-checkout".to_owned(),
        "--no-tags".to_owned(),
        "--quiet".to_owned(),
    ];
    match reference {
        Some(GitRef::Tag(t)) => {
            args.push("--branch".to_owned());
            args.push(t.clone());
        },
        Some(GitRef::Branch(t)) => {
            args.push("--branch".to_owned());
            args.push(t.clone());
        },
        _ => {},
    }
    args.push("--".to_owned());
    args.push(url.to_owned());
    args.push(dest.to_owned());
    assert(args.deep_view() =~= clone_args(url@, ref_view(reference), dest@));
    args
}

/// The arguments that bring a bare revision into a clone, where one was asked for.
pub open spec fn fetch_args(reference: Option<GitRefView>) -> Option<Seq<Seq<char>>> {
    match reference {
        Some(GitRefView::Rev(rev)) => Some(
            seq!["fetch"@, "--depth"@, "1"@, "origin"@, "--"@, rev],
        ),
        _ => None,
    }
}

/// git's arguments that bring a bare revision into a clone, where one was asked for.
pub fn fetch_argv(reference: Option<&GitRef>) -> (r: Option<Vec<String>>)
    ensures
        r.deep_view() == fetch_args(ref_view(reference)),
{
    match reference {
        Some(GitRef::Rev(rev)) => {
            let argv: Vec<String> = vec![
                "fetch".to_owned(),
                "--depth".to_owned(),
                "1".to_owned(),
                "origin".to_owned(),
                "--".to_owned(),
                rev.clone(),
            ];
            assert(argv.deep_view() =~= fetch_args(ref_view(reference))->0);
            Some(argv)
        },
        _ => None,
    }
}

/// The arguments that check a clone's tree out.
pub open spec fn checkout_args(reference: Option<GitRefView>) -> Seq<Seq<char>> {
    match reference {
        Some(GitRefView::Rev(rev)) => seq!["checkout"@, "--quiet"@, rev, "--"@],
        _ => seq!["checkout"@, "--quiet"@, "HEAD"@],
    }
}

/// git's arguments that check a clone's tree out. The `--` keeps a revision from being
/// taken for a file.
pub fn checkout_argv(reference: Option<&GitRef>) -> (r: Vec<String>)
    ensures
        r.deep_view() == checkout_args(ref_view(reference)),
{
    let argv: Vec<String> = match reference {
        Some(GitRef::Rev(rev)) => vec![
            "checkout".to_owned(),
            "--quiet".to_owned(),
            rev.clone(),
            "--".to_owned(),
        ],
        _ => vec!["checkout".to_owned(), "--quiet".to_owned(), "HEAD".to_owned()],
    };
    assert(argv.deep_view() =~= checkout_args(ref_view(reference)));
    argv
}

/// A step of inspecting a repository.
#[derive(Debug, Clone, Copy, PartialEq, Eq, Structural)]
pub enum GitStep {
    Probe,
    Clone,
    Fetch,
    Checkout,
    Head,
}

/// A run of git.
#[derive(Debug, PartialEq, Eq)]
pub struct GitCall {
    pub step: GitStep,
    pub argv: Vec<String>,
    /// Does it run in the clone?
    pub in_clone: bool,
}

/// The model of a [`GitCall`].
pub struct CallView {
    pub step: GitStep,
    pub argv: Seq<Seq<char>>,
    pub in_clone: bool,
}

impl DeepView for GitCall {
    type V = CallView;

    open spec fn deep_view(&self) -> CallView {
        CallView { step: self.step, argv: self.argv.deep_view(), in_clone: self.in_clone }
    }
}

/// The runs of git that bring a repository here to be looked into, in their order: is it
/// there at all, the clone, a bare revision where one is asked for, and its tree.
pub open spec fn inspection_calls(
    url: Seq<char>,
    reference: Option<GitRefView>,
    dest: Seq<char>,
) -> Seq<CallView> {
    seq![
        CallView {
            step: GitStep::Probe,
            argv: seq!["ls-remote"@, "--exit-code"@, "--"@, url],
            in_clone: false,
        },
        CallView {
            step: GitStep::Clone,
            argv: clone_args(url, reference, dest),
            in_clone: false,
        },
    ] + (match fetch_args(reference) {
        Some(argv) => seq![CallView { step: GitStep::Fetch, argv, in_clone: true }],
        None => Seq::empty(),
    }) + seq![
        CallView { step: GitStep::Checkout, argv: checkout_args(reference), in_clone: true },
    ]
}

/// Lists the runs of git that bring a repository to `dest`, in their order.
pub fn inspection(url: &str, reference: Option<&GitRef>, dest: &str) -> (r: Vec<GitCall>)
    ensures
        r.deep_view() == inspection_calls(url@, ref_view(reference), dest@),
{
    let mut calls: Vec<GitCall> = vec![
        GitCall { step: GitStep::Probe, argv: probe_argv(url), in_clone: false },
        GitCall { step: GitStep::Clone, argv: clone_argv(url, reference, dest), in_clone: false },
    ];
    if let Some(argv) = fetch_argv(reference) {
        calls.push(GitCall { step: GitStep::Fetch, argv, in_clone: true });
    }
    calls.push(
        GitCall { step: GitStep::Checkout, argv: checkout_argv(reference), in_clone: true },
    );
    assert(calls.deep_view() =~= inspection_calls(url@, ref_view(reference), dest@));
    calls
}

/// The run of git that prints the commit a clone is at.
pub fn head_call() -> (r: GitCall)
    ensures
        r.deep_view() == (CallView {
            step: GitStep::Head,
            argv: seq!["rev-parse"@, "HEAD"@],
            in_clone: true,
        }),
{
    let argv: Vec<String> = vec!["rev-parse".to_owned(), "HEAD".to_owned()];
    assert(argv.deep_view() =~= seq!["rev-parse"@, "HEAD"@]);
    GitCall { step: GitStep::Head, argv, in_clone: true }
}

/// A repository is asked for before it is cloned, and what is cloned is checked out last;
/// nothing the user typed stands where git would read an option.
pub proof fn law_a_repository_is_probed_before_it_is_cloned(
    url: Seq<char>,
    reference: Option<GitRefView>,
    dest: Seq<char>,
)
    ensures
        inspection_calls(url, reference, dest)[0].step == GitStep::Probe,
        inspection_calls(url, reference, dest)[1].step == GitStep::Clone,
        inspection_calls(url, reference, dest).last().step == GitStep::Checkout,
        inspection_calls(url, reference, dest).len() == (if reference is Some && reference->0 is Rev {
            4int
        } else {
            3
        }),
        inspection_calls(url, reference, dest)[0].argv[2] == "--"@,
        clone_args(url, reference, dest)[clone_args(url, reference, dest).len() - 3] == "--"@,
{
}

/// What is said of a step that git ended with a failure.
pub open spec fn step_failed(step: GitStep, url: Seq<char>, rev: Seq<char>, stderr: Seq<char>) -> ErrorView {
    registry_failure(
        match step {
            GitStep::Probe => "could not reach `"@ + url + "`: "@ + text::trimmed(stderr),
            GitStep::Clone => "git clone of `"@ + url + "` failed: "@ + text::trimmed(stderr),
            GitStep::Fetch => "could not fetch rev `"@ + rev + "` from `"@ + url + "`"@,
            GitStep::Checkout => "git checkout failed: "@ + text::trimmed(stderr),
            GitStep::Head => "could not resolve the cloned commit"@,
        },
    )
}

/// What is said of a step that git ended with a failure, having written `stderr`.
pub fn step_failure(step: GitStep, url: &str, rev: &str, stderr: &str) -> (r: CloveError)
    ensures
        r.deep_view() == step_failed(step, url@, rev@, stderr@),
{
    let said = text::trim(stderr);
    registry_error(
        match step {
            GitStep::Probe => text::cat4("could not reach `", url, "`: ", said),
            GitStep::Clone => text::cat4("git clone of `", url, "` failed: ", said),
            GitStep::Fetch => text::cat5("could not fetch rev `", rev, "` from `", url, "`"),
            GitStep::Checkout => text::cat2("git checkout failed: ", said),
            GitStep::Head => "could not resolve the cloned commit".to_owned(),
        },
    )
}

/// What a wait for a git subprocess comes to.
#[derive(Debug, PartialEq, Eq)]
pub enum GitWait {
    /// It has ended.
    Done,
    /// It is still running, and may go on.
    Poll,
    /// It has had its time, and is killed.
    TimedOut(CloveError),
}

/// What is said of a git subprocess that had its time.
pub open spec fn git_timeout(command: Option<Seq<char>>) -> ErrorView {
    registry_failure(
        "git timed out after 120s (`git "@ + (match command {
            Some(c) => c,
            None => "?"@,
        }) + "`)"@,
    )
}

/// Decides whether to go on waiting for a git subprocess that was started
/// `elapsed_ms` ago with `argv`.
pub fn git_wait(ended: bool, elapsed_ms: u64, argv: &Vec<String>) -> (r: GitWait)
    ensures
        ended ==> r == GitWait::Done,
        !ended && elapsed_ms < 120000 ==> r == GitWait::Poll,
        !ended && elapsed_ms >= 120000 ==> (r matches GitWait::TimedOut(e) && e.deep_view()
            == git_timeout(
            if argv.len() > 0 {
                Some(argv[0]@)
            } else {
                None
            },
        )),
{
    if ended {
        GitWait::Done
    } else if elapsed_ms < 120000 {
        GitWait::Poll
    } else {
        let command: &str = if argv.len() > 0 {
            argv[0].as_str()
        } else {
            "?"
        };
        GitWait::TimedOut(
            registry_error(text::cat3("git timed out after 120s (`git ", command, "`)")),
        )
    }
}

/// Is `sha` a full commit id?
pub open spec fn is_commit(sha: Seq<char>) -> bool {
    text::byte_len(sha) >= 40 && forall|i: int| 0 <= i < sha.len() ==> text::is_hex(#[trigger] sha[i])
}

/// The commit that a text names.
pub open spec fn commit_read(stdout: Seq<char>) -> Result<Seq<char>, ErrorView> {
    if is_commit(text::trimmed(stdout)) {
        Ok(text::trimmed(stdout))
    } else {
        Err(
            registry_failure(
                "git returned an implausible commit id `"@ + text::trimmed(stdout) + "`"@,
            ),
        )
    }
}

/// The commit that `git rev-parse HEAD` printed. The reference the user named only
/// selects a commit; this is what pins it.
pub fn commit_printed(stdout: &str) -> (r: Result<String, CloveError>)
    ensures
        crate::error::outcome(r) == commit_read(stdout@),
{
    let sha: &str = text::trim(stdout);
    let x = text::chars_of(sha);
    let mut plausible = text::bytes_of(sha) >= 40;
    let mut i: usize = 0;
    while i < x.len()
        invariant
            x@ == sha@,
            i <= x.len(),
            plausible <==> text::byte_len(sha@) >= 40 && forall|j: int|
                0 <= j < i ==> text::is_hex(#[trigger] sha@[j]),
        decreases x.len() - i,
    {
        if !text::hex(x[i]) {
            assert(!text::is_hex(sha@[i as int]));
            plausible = false;
        }
        i += 1;
    }
    if plausible {
        Ok(sha.to_owned())
    } else {
        Err(
            registry_error(
                text::cat3("git returned an implausible commit id `", sha, "`"),
            ),
        )
    }
}

// ---- Which package is a plugin ------------------------------------------------

/// Does an array hold the text `s`?
pub open spec fn holds_text(v: JsonView, s: Seq<char>) -> bool {
    v matches JsonView::Array(items) && exists|i: int|
        0 <= i < items.len() && #[trigger] items[i] == JsonView::Text(s)
}

/// Does an array hold an object whose `name` is `s`?
pub open spec fn holds_named(v: JsonView, s: Seq<char>) -> bool {
    v matches JsonView::Array(items) && exists|i: int|
        0 <= i < items.len() && (#[trigger] items[i]).member("name"@) == Some(JsonView::Text(s))
}

/// Is a package marked as not publishable? `publish = false` renders as an empty list.
pub open spec fn is_unpublishable(package: JsonView) -> bool {
    package.member("publish"@) matches Some(JsonView::Array(items)) && items.len() == 0
}

/// Does a package depend on `clove-plugin`?
pub open spec fn depends_on_root(package: JsonView) -> bool {
    package.member("dependencies"@) matches Some(deps) && holds_named(deps, "clove-plugin"@)
}

/// Is one of the targets a binary of this name?
pub open spec fn some_bin_target(targets: Seq<JsonView>, name: Seq<char>) -> bool {
    exists|i: int| 0 <= i < targets.len() && #[trigger] is_bin_target(targets[i], name)
}

/// Does a package build a binary of this name?
pub open spec fn builds_bin(package: JsonView, name: Seq<char>) -> bool {
    match package.member("targets"@) {
        Some(JsonView::Array(items)) => some_bin_target(items, name),
        _ => false,
    }
}

/// Is a target a binary of this name?
pub open spec fn is_bin_target(target: JsonView, name: Seq<char>) -> bool {
    &&& target.member("kind"@) matches Some(kind) && holds_text(kind, "bin"@)
    &&& target.member("name"@) == Some(JsonView::Text(name))
}

/// The plugin that a package is, if it is one: it is publishable, depends on
/// `clove-plugin`, and builds a binary of its own, legal name.
pub open spec fn package_plugin(package: JsonView) -> Option<GitPluginView> {
    match package.member("name"@) {
        Some(JsonView::Text(name)) => if !is_unpublishable(package) && depends_on_root(package)
            && is_bin_name(name) && builds_bin(package, name) {
            Some(GitPluginView { package: name, bin: name })
        } else {
            None
        },
        _ => None,
    }
}

/// The plugins among the first `n` packages.
pub open spec fn plugins_to(packages: Seq<JsonView>, n: int) -> Seq<GitPluginView>
    decreases n,
{
    if n <= 0 {
        Seq::empty()
    } else {
        let before = plugins_to(packages, n - 1);
        match package_plugin(packages[n - 1]) {
            Some(p) => before.push(p),
            None => before,
        }
    }
}

/// The plugins of a repository, ordered by package name.
pub open spec fn repository_plugins(metadata: JsonView) -> Seq<GitPluginView> {
    match metadata.member("packages"@) {
        Some(JsonView::Array(packages)) => sorted_by(
            plugins_to(packages, packages.len() as int),
            by_name::<GitPlugin>(),
        ),
        _ => Seq::empty(),
    }
}

fn array_holds_text(v: &Json, s: &str) -> (r: bool)
    ensures
        r == holds_text(v.shape(), s@),
{
    match v.as_array() {
        Some(items) => {
            let ghost all = items.deep_view();
            let mut i: usize = 0;
            while i < items.len()
                invariant
                    i <= items.len(),
                    all == items.deep_view(),
                    v.shape() == JsonView::Array(all),
                    forall|j: int| 0 <= j < i ==> #[trigger] all[j] != JsonView::Text(s@),
                decreases items.len() - i,
            {
                assert(all[i as int] == items@[i as int].shape());
                if let Some(t) = items[i].as_str() {
                    if text::same(t, s) {
                        assert(all[i as int] == JsonView::Text(s@));
                        return true;
                    }
                }
                i += 1;
            }
            false
        },
        None => false,
    }
}

/// Is a member of an object the text `s`?
fn member_is(v: &Json, key: &str, s: &str) -> (r: bool)
    ensures
        r == (v.shape().member(key@) == Some(JsonView::Text(s@))),
{
    match v.get(key) {
        Some(m) => match m.as_str() {
            Some(t) => text::same(t, s),
            None => false,
        },
        None => false,
    }
}

fn array_holds_named(v: &Json, s: &str) -> (r: bool)
    ensures
        r == holds_named(v.shape(), s@),
{
    match v.as_array() {
        Some(items) => {
            let ghost all = items.deep_view();
            let mut i: usize = 0;
            while i < items.len()
                invariant
                    i <= items.len(),
                    all == items.deep_view(),
                    v.shape() == JsonView::Array(all),
                    forall|j: int|
                        0 <= j < i ==> (#[trigger] all[j]).member("name"@) != Some(
                            JsonView::Text(s@),
                        ),
                decreases items.len() - i,
            {
                assert(all[i as int] == items@[i as int].shape());
                if member_is(&items[i], "name", s) {
                    assert(all[i as int].member("name"@) == Some(JsonView::Text(s@)));
                    return true;
                }
                i += 1;
            }
            false
        },
        None => false,
    }
}

fn has_bin_target(targets: &Vec<Json>, name: &str) -> (r: bool)
    ensures
        r == some_bin_target(targets.deep_view(), name@),
{
    let ghost all = targets.deep_view();
    let mut i: usize = 0;
    while i < targets.len()
        invariant
            i <= targets.len(),
            all == targets.deep_view(),
            forall|j: int| 0 <= j < i ==> !#[trigger] is_bin_target(all[j], name@),
        decreases targets.len() - i,
    {
        assert(all[i as int] == targets@[i as int].shape());
        let is_bin = match targets[i].get("kind") {
            Some(kind) => array_holds_text(kind, "bin"),
            None => false,
        };
        if is_bin && member_is(&targets[i], "name", name) {
            assert(is_bin_target(all[i as int], name@));
            return true;
        }
        i += 1;
    }
    false
}

fn package_builds(package: &Json, name: &str) -> (r: bool)
    ensures
        r == builds_bin(package.shape(), name@),
{
    match package.get("targets") {
        Some(v) => match v.as_array() {
            Some(items) => has_bin_target(items, name),
            None => false,
        },
        None => false,
    }
}

fn plugin_in(package: &Json) -> (r: Option<GitPlugin>)
    ensures
        r.deep_view() == package_plugin(package.shape()),
{
    let name: &str = match package.get("name") {
        Some(v) => match v.as_str() {
            Some(s) => s,
            None => return None,
        },
        None => return None,
    };
    if let Some(publish) = package.get("publish") {
        if let Some(items) = publish.as_array() {
            if items.len() == 0 {
                assert(items.deep_view().len() == 0);
                return None;
            }
            assert(items.deep_view().len() > 0);
        }
    }
    let depends = match package.get("dependencies") {
        Some(deps) => array_holds_named(deps, "clove-plugin"),
        None => false,
    };
    if !depends || validate_bin_name(name).is_err() || !package_builds(package, name) {
        return None;
    }
    Some(GitPlugin { package: name.to_owned(), bin: name.to_owned() })
}

/// The installable clove plugins of a repository, over an already parsed `cargo
/// metadata` document.
pub fn plugins_from_metadata(metadata: &Json) -> (r: Vec<GitPlugin>)
    ensures
        r.deep_view() == repository_plugins(metadata.shape()),
{
    let mut out: Vec<GitPlugin> = Vec::new();
    assert(out.deep_view() =~= Seq::<GitPluginView>::empty());
    let packages: &Vec<Json> = match metadata.get("packages") {
        Some(v) => match v.as_array() {
            Some(items) => items,
            None => return out,
        },
        None => return out,
    };
    let ghost all = packages.deep_view();
    let mut i: usize = 0;
    while i < packages.len()
        invariant
            i <= packages.len(),
            all == packages.deep_view(),
            metadata.shape().member("packages"@) == Some(JsonView::Array(all)),
            out.deep_view() == plugins_to(all, i as int),
        decreases packages.len() - i,
    {
        assert(all[i as int] == packages@[i as int].shape());
        if let Some(p) = plugin_in(&packages[i]) {
            let ghost before = out.deep_view();
            let ghost v = p.deep_view();
            out.push(p);
            assert(out.deep_view() =~= before.push(v));
        }
        i += 1;
    }
    sort_named(out)
}

/// The plugins that cargo's metadata text describes.
pub open spec fn printed_plugins(stdout: Seq<char>) -> Result<Seq<GitPluginView>, ErrorView> {
    match json_parsed(stdout) {
        Ok(doc) => Ok(repository_plugins(doc)),
        Err(e) => Err(registry_failure("could not parse cargo metadata: "@ + e)),
    }
}

/// Finds the installable clove plugins in what `cargo metadata` printed.
pub fn find_plugins(stdout: &str) -> (r: Result<Vec<GitPlugin>, CloveError>)
    ensures
        crate::error::outcome(r) == printed_plugins(stdout@),
{
    match Json::parse(stdout) {
        Ok(doc) => Ok(plugins_from_metadata(&doc)),
        Err(e) => Err(registry_error(text::cat2("could not parse cargo metadata: ", e.as_str()))),
    }
}

/// A repository's plugins all carry a legal binary name, which is their package's own.
pub proof fn law_repository_plugins_install_their_own_binary(packages: Seq<JsonView>, n: int, i: int)
    requires
        0 <= n <= packages.len(),
        0 <= i < plugins_to(packages, n).len(),
    ensures
        plugins_to(packages, n)[i].bin == plugins_to(packages, n)[i].package,
        is_bin_name(plugins_to(packages, n)[i].bin),
    decreases n,
{
    if n > 0 {
        let before = plugins_to(packages, n - 1);
        if i < before.len() {
            law_repository_plugins_install_their_own_binary(packages, n - 1, i);
        }
    }
}

// ---- Choosing -----------------------------------------------------------------

/// The package names, as a message lists them.
pub open spec fn names(found: Seq<GitPluginView>) -> Seq<char> {
    text::joined(Seq::new(found.len(), |i: int| found[i].package), ", "@)
}

fn list_names(found: &Vec<GitPlugin>) -> (r: String)
    ensures
        r@ == names(found.deep_view()),
{
    let ghost all = found.deep_view();
    let mut out: Vec<String> = Vec::new();
    let mut i: usize = 0;
    while i < found.len()
        invariant
            i <= found.len(),
            all == found.deep_view(),
            out.len() == i,
            forall|j: int| 0 <= j < i ==> (#[trigger] out@[j])@ == all[j].package,
        decreases found.len() - i,
    {
        out.push(found[i].package.clone());
        i += 1;
    }
    assert(out.deep_view() =~= Seq::new(all.len(), |i: int| all[i].package));
    text::join(&out, ", ")
}

/// The first of the plugins of that package name.
pub open spec fn of_package(found: Seq<GitPluginView>, name: Seq<char>) -> Option<GitPluginView>
    decreases found.len(),
{
    if found.len() == 0 {
        None
    } else if found[0].package == name {
        Some(found[0])
    } else {
        of_package(found.drop_first(), name)
    }
}

proof fn lemma_of_package(found: Seq<GitPluginView>, name: Seq<char>, n: int)
    requires
        0 <= n <= found.len(),
        forall|j: int| 0 <= j < n ==> (#[trigger] found[j]).package != name,
        n < found.len() ==> found[n].package == name,
    ensures
        of_package(found, name) == (if n < found.len() {
            Some(found[n])
        } else {
            None
        }),
    decreases n,
{
    if n > 0 {
        assert forall|j: int| 0 <= j < n - 1 implies (#[trigger] found.drop_first()[j]).package
            != name by {
            assert(found.drop_first()[j] == found[j + 1]);
        }
        lemma_of_package(found.drop_first(), name, n - 1);
    }
}

/// Which plugin is chosen: the one that was asked for, or the only one there is.
pub open spec fn selected(found: Seq<GitPluginView>, requested: Option<Seq<char>>) -> Result<
    GitPluginView,
    ErrorView,
> {
    match requested {
        Some(name) => match of_package(found, name) {
            Some(p) => Ok(p),
            None => Err(
                invalid_field(
                    "--package"@,
                    if found.len() == 0 {
                        "the repository contains no clove plugin"@
                    } else {
                        "`"@ + name + "` is not a clove plugin in this repository; found: "@
                            + names(found)
                    },
                ),
            ),
        },
        None => if found.len() == 0 {
            Err(
                invalid_field(
                    "--git"@,
                    "the repository contains no package that depends on `clove-plugin` and builds a `clove-*` binary"@,
                ),
            )
        } else if found.len() == 1 {
            Ok(found[0])
        } else {
            Err(
                invalid_field(
                    "--package"@,
                    "the repository contains several clove plugins ("@ + names(found)
                        + "); choose one with --package"@,
                ),
            )
        },
    }
}

/// Chooses which discovered plugin to install. With `--package`, that one; without,
/// the only candidate. Several are refused rather than guessed among.
pub fn select<'a>(found: &'a Vec<GitPlugin>, requested: Option<&str>) -> (r: Result<
    &'a GitPlugin,
    CloveError,
>)
    ensures
        match r {
            Ok(p) => selected(found.deep_view(), text::opt_view(requested)) == Ok::<
                GitPluginView,
                ErrorView,
            >(p.deep_view()),
            Err(e) => selected(found.deep_view(), text::opt_view(requested)) == Err::<
                GitPluginView,
                ErrorView,
            >(e.deep_view()),
        },
{
    let ghost all = found.deep_view();
    if let Some(name) = requested {
        let mut i: usize = 0;
        while i < found.len()
            invariant
                i <= found.len(),
                all == found.deep_view(),
                requested == Some(name),
                forall|j: int| 0 <= j < i ==> (#[trigger] all[j]).package != name@,
            decreases found.len() - i,
        {
            assert(all[i as int] == found@[i as int].deep_view());
            if text::same(found[i].package.as_str(), name) {
                proof {
                    lemma_of_package(all, name@, i as int);
                }
                return Ok(&found[i]);
            }
            i += 1;
        }
        proof {
            lemma_of_package(all, name@, i as int);
        }
        if found.len() == 0 {
            return Err(
                invalid("--package", "the repository contains no clove plugin".to_owned()),
            );
        }
        let listed = list_names(found);
        return Err(
            invalid(
                "--package",
                text::cat4(
                    "`",
                    name,
                    "` is not a clove plugin in this repository; found: ",
                    listed.as_str(),
                ),
            ),
        );
    }
    if found.len() == 0 {
        Err(
            invalid(
                "--git",
                "the repository contains no package that depends on `clove-plugin` and builds a `clove-*` binary".to_owned(),
            ),
        )
    } else if found.len() == 1 {
        assert(all[0] == found@[0].deep_view());
        Ok(&found[0])
    } else {
        let listed = list_names(found);
        Err(
            invalid(
                "--package",
                text::cat3(
                    "the repository contains several clove plugins (",
                    listed.as_str(),
                    "); choose one with --package",
                ),
            ),
        )
    }
}

/// The model of the arguments of a git install.
pub open spec fn git_install_args(
    url: Seq<char>,
    reference: Option<GitRefView>,
    package: Seq<char>,
    bin: Seq<char>,
    root: Seq<char>,
    force: bool,
) -> Seq<Seq<char>> {
    seq!["install"@, "--locked"@, "--git"@, url] + (match reference {
        Some(r) => r.cargo_pair(),
        None => Seq::empty(),
    }) + seq!["--root"@, root, "--bin"@, bin] + (if force {
        seq!["--force"@]
    } else {
        Seq::empty()
    }) + seq!["--"@, package]
}

/// The `cargo install` arguments for a git install, pinned to `reference` and
/// restricted to one binary.
pub fn cargo_install_argv(
    url: &str,
    reference: Option<&GitRef>,
    package: &str,
    bin: &str,
    root: &str,
    force: bool,
) -> (r: Vec<String>)
    ensures
        r.deep_view() == git_install_args(
            url@,
            ref_view(reference),
            package@,
            bin@,
            root@,
            force,
        ),
{
    let mut argv: Vec<String> = vec![
        "install".to_owned(),
        "--locked".to_owned(),
        "--git".to_owned(),
        url.to_owned(),
    ];
    if let Some(r) = reference {
        let pair = r.cargo_args();
        argv.push(pair[0].clone());
        argv.push(pair[1].clone());
        assert(seq![pair@[0]@, pair@[1]@][0] == r.deep_view().cargo_pair()[0]);
        assert(seq![pair@[0]@, pair@[1]@][1] == r.deep_view().cargo_pair()[1]);
    }
    argv.push("--root".to_owned());
    argv.push(root.to_owned());
    argv.push("--bin".to_owned());
    argv.push(bin.to_owned());
    if force {
        argv.push("--force".to_owned());
    }
    argv.push("--".to_owned());
    argv.push(package.to_owned());
    assert(argv.deep_view() =~= git_install_args(
        url@,
        ref_view(reference),
        package@,
        bin@,
        root@,
        force,
    ));
    argv
}

/// The warning shown when installing from a moving reference.
pub open spec fn unpinned(url: Seq<char>) -> Seq<char> {
    "installing `"@ + url
        + "` from its default branch, which moves — the code you approve now is not necessarily what a later reinstall builds. Pass --tag or --rev to pin it."@
}

pub fn unpinned_warning(url: &str) -> (r: String)
    ensures
        r@ == unpinned(url@),
{
    text::cat3(
        "installing `",
        url,
        "` from its default branch, which moves — the code you approve now is not necessarily what a later reinstall builds. Pass --tag or --rev to pin it.",
    )
}

// ---- What is asked for is what is fetched and built --------------------------

/// Does a command get an option with a value, in front of the `--` that ends its options?
pub open spec fn has_option(args: Seq<Seq<char>>, option: Seq<char>, value: Seq<char>) -> bool {
    exists|k: int|
        0 <= k && k + 1 < args.len() && #[trigger] args[k] == option && args[k + 1] == value
            && forall|j: int| 0 <= j <= k ==> #[trigger] args[j] != "--"@
}

/// The name of a tag or of a branch; none of a bare revision.
pub open spec fn named(reference: Option<GitRefView>) -> Option<Seq<char>> {
    match reference {
        Some(GitRefView::Tag(t)) => Some(t),
        Some(GitRefView::Branch(t)) => Some(t),
        _ => None,
    }
}

/// A clone is of the tag or the branch that was asked for: the pair `--branch` and its name
/// stands among the options, and there is no such option where none was asked for. The
/// options end in front of the repository and the directory, and it is always a shallow clone
/// without blobs that checks nothing out.
pub proof fn law_a_clone_is_of_the_named_reference(
    url: Seq<char>,
    reference: Option<GitRefView>,
    dest: Seq<char>,
)
    ensures
        ({
            let args = clone_args(url, reference, dest);
            let n = args.len() as int;
            &&& n > 3 && args[0] == "clone"@
            &&& args[n - 3] == "--"@ && args[n - 2] == url && args[n - 1] == dest
            &&& named(reference) matches Some(t) ==> has_option(args, "--branch"@, t)
            &&& named(reference) is None ==> !args.take(n - 3).contains("--branch"@)
            &&& args.take(n - 3).contains("--no-checkout"@)
            &&& args.take(n - 3).contains("--filter=blob:none"@)
            &&& has_option(args, "--depth"@, "1"@)
        }),
{
    reveal_strlit("clone");
    reveal_strlit("--filter=blob:none");
    reveal_strlit("--depth");
    reveal_strlit("1");
    reveal_strlit("--no-checkout");
    reveal_strlit("--no-tags");
    reveal_strlit("--quiet");
    reveal_strlit("--branch");
    reveal_strlit("--");
    let args = clone_args(url, reference, dest);
    let n = args.len() as int;
    let options = args.take(n - 3);
    assert(args[2] == "--depth"@ && args[3] == "1"@);
    assert(args[0] == "clone"@ && args[1] == "--filter=blob:none"@);
    assert(args[4] == "--no-checkout"@ && args[5] == "--no-tags"@ && args[6] == "--quiet"@);
    assert("--"@.len() == 2 && "1"@.len() == 1);
    assert forall|j: int| 0 <= j < 7 implies #[trigger] args[j] != "--"@ by {
        assert(j == 0 || j == 1 || j == 2 || j == 3 || j == 4 || j == 5 || j == 6);
    }
    assert(options[4] == "--no-checkout"@);
    assert(options[1] == "--filter=blob:none"@);
    if let Some(t) = named(reference) {
        assert(args[7] == "--branch"@ && args[8] == t);
    } else {
        assert(n == 10);
        assert forall|j: int| 0 <= j < options.len() implies #[trigger] options[j] != "--branch"@ by {
            assert(options[j] == args[j]);
        }
    }
}

/// Two clones of different tags have different arguments; so have clones of different
/// repositories, and into different directories.
pub proof fn law_clones_differ_where_what_is_asked_for_differs(
    url: Seq<char>,
    reference: Option<GitRefView>,
    dest: Seq<char>,
    url2: Seq<char>,
    reference2: Option<GitRefView>,
    dest2: Seq<char>,
)
    requires
        clone_args(url, reference, dest) == clone_args(url2, reference2, dest2),
    ensures
        url == url2,
        dest == dest2,
        named(reference) == named(reference2),
{
    let a = clone_args(url, reference, dest);
    let b = clone_args(url2, reference2, dest2);
    let n = a.len() as int;
    assert(a[n - 2] == url && b[n - 2] == url2);
    assert(a[n - 1] == dest && b[n - 1] == dest2);
    if named(reference) is Some {
        assert(n == 12);
        assert(a[8] == named(reference)->0);
        assert(b[8] == named(reference2)->0);
    } else {
        assert(n == 10);
    }
}

/// A bare revision is fetched from the repository and checked out, and nothing else is; a
/// tag, a branch or the default branch is checked out where the clone stands.
pub proof fn law_a_revision_is_fetched_and_checked_out(
    url: Seq<char>,
    reference: Option<GitRefView>,
    dest: Seq<char>,
)
    ensures
        ({
            let calls = inspection_calls(url, reference, dest);
            &&& forall|i: int|
                0 <= i < calls.len() ==> (#[trigger] calls[i]).in_clone == (calls[i].step
                    == GitStep::Fetch || calls[i].step == GitStep::Checkout)
            &&& calls[0].argv.last() == url
            &&& calls[1].argv == clone_args(url, reference, dest)
            &&& match reference {
                Some(GitRefView::Rev(rev)) => {
                    &&& calls[2].step == GitStep::Fetch
                    &&& calls[2].argv[0] == "fetch"@ && calls[2].argv.last() == rev
                    &&& calls[2].argv[calls[2].argv.len() - 2] == "--"@
                    &&& calls.last().argv.contains(rev)
                },
                _ => calls.last().argv.last() == "HEAD"@ && forall|i: int|
                    0 <= i < calls.len() ==> (#[trigger] calls[i]).step != GitStep::Fetch,
            }
            &&& calls.last().argv[0] == "checkout"@
        }),
{
    let calls = inspection_calls(url, reference, dest);
    let last = calls.last();
    match reference {
        Some(GitRefView::Rev(rev)) => {
            assert(calls.len() == 4);
            assert(calls[0].step == GitStep::Probe && calls[1].step == GitStep::Clone);
            assert(calls[2].step == GitStep::Fetch && calls[3].step == GitStep::Checkout);
            assert(last.argv[2] == rev);
        },
        _ => {
            assert(calls.len() == 3);
            assert(calls[0].step == GitStep::Probe && calls[1].step == GitStep::Clone);
            assert(calls[2].step == GitStep::Checkout);
        },
    }
}

/// One kind of reference is chosen, with the name it was given: a tag before a revision, a
/// revision before a branch; and what cannot be a reference is refused under its own flag.
pub proof fn law_the_given_reference_is_chosen(
    tag: Option<Seq<char>>,
    rev: Option<Seq<char>>,
    branch: Option<Seq<char>>,
)
    ensures
        match chosen_ref(tag, rev, branch) {
            Ok(Some(GitRefView::Tag(t))) => tag == Some(t) && is_git_ref(t),
            Ok(Some(GitRefView::Rev(t))) => tag is None && rev == Some(t) && is_git_ref(t),
            Ok(Some(GitRefView::Branch(t))) => tag is None && rev is None && branch == Some(t)
                && is_git_ref(t),
            Ok(None) => tag is None && rev is None && branch is None,
            Err(ErrorView::InvalidField { field, reason }) => {
                ||| field == "--tag"@ && tag is Some && !is_git_ref(tag->0)
                ||| field == "--rev"@ && tag is None && rev is Some && !is_git_ref(rev->0)
                ||| field == "--branch"@ && tag is None && rev is None && branch is Some
                    && !is_git_ref(branch->0)
            },
            Err(_) => false,
        },
{
}

/// A build from git is of the package and the binary that were chosen, at the reference that
/// was chosen, into the given root; and it replaces what is there only when forced.
pub proof fn law_a_git_build_is_of_what_was_chosen(
    url: Seq<char>,
    reference: Option<GitRefView>,
    package: Seq<char>,
    bin: Seq<char>,
    root: Seq<char>,
    force: bool,
)
    ensures
        ({
            let args = git_install_args(url, reference, package, bin, root, force);
            let n = args.len() as int;
            &&& args[0] == "install"@
            &&& args.last() == package && args[n - 2] == "--"@
            &&& has_pair(args, "--git"@, url)
            &&& has_pair(args, "--root"@, root)
            &&& has_pair(args, "--bin"@, bin)
            &&& reference matches Some(GitRefView::Tag(t)) ==> has_pair(args, "--tag"@, t)
            &&& reference matches Some(GitRefView::Branch(t)) ==> has_pair(args, "--branch"@, t)
            &&& reference matches Some(GitRefView::Rev(t)) ==> has_pair(args, "--rev"@, t)
            &&& args.contains("--locked"@)
            &&& force <==> args[n - 3] == "--force"@ && n == (if reference is Some {
                13int
            } else {
                11
            })
        }),
{
    let args = git_install_args(url, reference, package, bin, root, force);
    let n = args.len() as int;
    assert(args[1] == "--locked"@);
    assert(args[2] == "--git"@ && args[3] == url);
    let k: int = if reference is Some {
        6
    } else {
        4
    };
    assert(args[k] == "--root"@ && args[k + 1] == root);
    assert(args[k + 2] == "--bin"@ && args[k + 3] == bin);
    if let Some(r) = reference {
        assert(args[4] == r.cargo_pair()[0] && args[5] == r.cargo_pair()[1]);
    }
    if force {
        assert(args[k + 4] == "--force"@);
    }
}

/// Do two arguments stand beside each other?
pub open spec fn has_pair(args: Seq<Seq<char>>, a: Seq<char>, b: Seq<char>) -> bool {
    exists|k: int| 0 <= k && k + 1 < args.len() && #[trigger] args[k] == a && args[k + 1] == b
}

/// Every package of a repository that is a plugin is found, and nothing else is: it can be
/// published, depends on the plugin crate, and builds a binary of its own name.
pub proof fn law_every_plugin_of_a_repository_is_found(packages: Seq<JsonView>, n: int)
    requires
        0 <= n <= packages.len(),
    ensures
        forall|i: int|
            0 <= i < n ==> (package_plugin(#[trigger] packages[i]) matches Some(p) ==> plugins_to(
                packages,
                n,
            ).contains(p)),
        forall|k: int|
            0 <= k < plugins_to(packages, n).len() ==> exists|i: int|
                0 <= i < n && package_plugin(#[trigger] packages[i]) == Some(
                    #[trigger] plugins_to(packages, n)[k],
                ),
    decreases n,
{
    if n > 0 {
        law_every_plugin_of_a_repository_is_found(packages, n - 1);
        let before = plugins_to(packages, n - 1);
        let all = plugins_to(packages, n);
        assert forall|i: int| 0 <= i < n implies (package_plugin(#[trigger] packages[i]) matches Some(
            p,
        ) ==> all.contains(p)) by {
            if let Some(p) = package_plugin(packages[i]) {
                if i < n - 1 {
                    let k = choose|k: int| 0 <= k < before.len() && before[k] == p;
                    assert(all[k] == p);
                } else {
                    assert(all[before.len() as int] == p);
                }
            }
        }
        assert forall|k: int| 0 <= k < all.len() implies exists|i: int|
            0 <= i < n && package_plugin(#[trigger] packages[i]) == Some(#[trigger] all[k]) by {
            if k < before.len() {
                assert(before[k] == all[k]);
                let i = choose|i: int|
                    0 <= i < n - 1 && package_plugin(#[trigger] packages[i]) == Some(before[k]);
                assert(package_plugin(packages[i]) == Some(all[k]));
            } else {
                assert(package_plugin(packages[n - 1]) == Some(all[k]));
            }
        }
    }
}

/// The plugin that is selected is one that was found, and the one that was asked for by name;
/// without a name it is the only one there is.
pub proof fn law_the_asked_plugin_is_selected(
    found: Seq<GitPluginView>,
    requested: Option<Seq<char>>,
)
    ensures
        match selected(found, requested) {
            Ok(p) => found.contains(p) && match requested {
                Some(name) => p.package == name,
                None => found.len() == 1,
            },
            Err(_) => match requested {
                Some(name) => forall|i: int|
                    0 <= i < found.len() ==> (#[trigger] found[i]).package != name,
                None => found.len() != 1,
            },
        },
{
    if let Some(name) = requested {
        lemma_of_package_means(found, name);
    } else if found.len() == 1 {
        assert(found.contains(found[0]));
    }
}

proof fn lemma_of_package_means(found: Seq<GitPluginView>, name: Seq<char>)
    ensures
        match of_package(found, name) {
            Some(p) => found.contains(p) && p.package == name,
            None => forall|i: int| 0 <= i < found.len() ==> (#[trigger] found[i]).package != name,
        },
    decreases found.len(),
{
    if found.len() > 0 {
        let rest = found.drop_first();
        lemma_of_package_means(rest, name);
        if found[0].package == name {
            assert(found.contains(found[0]));
        } else {
            if let Some(p) = of_package(rest, name) {
                let k = choose|k: int| 0 <= k < rest.len() && rest[k] == p;
                assert(found[k + 1] == p);
            }
            assert forall|i: int| 0 <= i < found.len() && of_package(rest, name) is None implies (
            #[trigger] found[i]).package != name by {
                if i > 0 {
                    assert(found[i] == rest[i - 1]);
                }
            }
        }
    }
}

/// A failed step is told with what it is about: the repository, the revision, and what git
/// said.
pub proof fn law_a_failed_step_is_told(
    url: Seq<char>,
    rev: Seq<char>,
    stderr: Seq<char>,
    command: Seq<char>,
)
    ensures
        step_failed(GitStep::Probe, url, rev, stderr) == registry_failure(
            "could not reach `"@ + url + "`: "@ + text::trimmed(stderr),
        ),
        step_failed(GitStep::Clone, url, rev, stderr) == registry_failure(
            "git clone of `"@ + url + "` failed: "@ + text::trimmed(stderr),
        ),
        step_failed(GitStep::Fetch, url, rev, stderr) == registry_failure(
            "could not fetch rev `"@ + rev + "` from `"@ + url + "`"@,
        ),
        step_failed(GitStep::Checkout, url, rev, stderr) == registry_failure(
            "git checkout failed: "@ + text::trimmed(stderr),
        ),
        git_timeout(Some(command)) == registry_failure(
            "git timed out after 120s (`git "@ + command + "`)"@,
        ),
{
}

/// A commit is at least forty hexadecimal digits, and nothing else.
pub proof fn law_a_commit_is_hexadecimal(sha: Seq<char>, i: int)
    ensures
        is_commit(sha) && 0 <= i < sha.len() ==> text::is_hex(sha[i]),
        is_commit(sha) ==> text::byte_len(sha) >= 40,
        text::byte_len(sha) >= 40 && (forall|k: int|
            0 <= k < sha.len() ==> text::is_hex(#[trigger] sha[k])) ==> is_commit(sha),
        text::byte_len(sha) < 40 ==> !is_commit(sha),
{
}

/// The plugins of a repository are those of its packages, sorted by name; metadata that cannot
/// be read is an error.
pub proof fn law_the_plugins_of_a_repository_are_sorted(
    stdout: Seq<char>,
    doc: JsonView,
    packages: Seq<JsonView>,
)
    ensures
        json_parsed(stdout) is Err ==> printed_plugins(stdout) is Err,
        json_parsed(stdout) == Ok::<JsonView, Seq<char>>(doc) ==> printed_plugins(stdout) == Ok::<
            Seq<GitPluginView>,
            ErrorView,
        >(repository_plugins(doc)),
        doc.member("packages"@) == Some(JsonView::Array(packages)) ==> repository_plugins(
            doc,
        ).to_multiset() == plugins_to(packages, packages.len() as int).to_multiset()
            && crate::order::in_order(repository_plugins(doc), by_name::<GitPlugin>()),
        doc.member("packages"@) is None ==> repository_plugins(doc).len() == 0,
{
    crate::order::law_sorted_is_an_ordered_rearrangement(
        plugins_to(packages, packages.len() as int),
        by_name::<GitPlugin>(),
    );
}

/// A package is a plugin when it can be published, depends on the plugin crate, and builds a
/// binary of its own name; each of these is read from its own key.
pub proof fn law_a_package_is_a_plugin_by_its_keys(
    package: JsonView,
    name: Seq<char>,
    deps: Seq<JsonView>,
    targets: Seq<JsonView>,
    i: int,
    k: int,
)
    ensures
        package_plugin(package) matches Some(p) ==> package.member("name"@) == Some(
            JsonView::Text(p.package),
        ) && p.bin == p.package && is_bin_name(p.package),
        package.member("publish"@) matches Some(JsonView::Array(items)) ==> (items.len() == 0
            ==> package_plugin(package) is None),
        package.member("dependencies"@) is None || package.member("targets"@) is None
            ==> package_plugin(package) is None,
        package.member("name"@) == Some(JsonView::Text(name)) && is_bin_name(name)
            && package.member("publish"@) is None && package.member("dependencies"@) == Some(
            JsonView::Array(deps),
        ) && package.member("targets"@) == Some(JsonView::Array(targets)) && 0 <= i < deps.len()
            && deps[i].member("name"@) == Some(JsonView::Text("clove-plugin"@)) && 0 <= k
            < targets.len() && targets[k].member("name"@) == Some(JsonView::Text(name))
            && targets[k].member("kind"@) == Some(JsonView::Array(seq![JsonView::Text("bin"@)]))
            ==> package_plugin(package) == Some(GitPluginView { package: name, bin: name }),
{
    let kinds = seq![JsonView::Text("bin"@)];
    assert(kinds[0] == JsonView::Text("bin"@));
    if 0 <= k < targets.len() && targets[k].member("name"@) == Some(JsonView::Text(name))
        && targets[k].member("kind"@) == Some(JsonView::Array(kinds)) {
        assert(holds_text(JsonView::Array(kinds), "bin"@));
        assert(is_bin_target(targets[k], name));
    }
}

/// The commit that is pinned is the one that git printed, and only if it is a commit; a
/// reference that is none is refused under its own kind.
pub proof fn law_only_a_commit_is_pinned(stdout: Seq<char>, kind: Seq<char>, value: Seq<char>)
    ensures
        commit_read(stdout) matches Ok(c) ==> c == text::trimmed(stdout) && is_commit(c),
        is_commit(text::trimmed(stdout)) ==> commit_read(stdout) is Ok,
        git_ref_problem(kind, value) is None <==> is_git_ref(value),
        git_ref_problem(kind, value) matches Some(e) ==> (e matches ErrorView::InvalidField {
            field,
            reason,
        } && field == kind && text::occurs(reason, value)),
{
    text::lemma_occurs_between("invalid "@ + kind + " `"@, value, "`"@);
}

} // verus!
