//! The plugin registry: crates.io, read through the reverse dependencies of
//! `clove-plugin`.

pub mod cache;
pub mod crates_io;
pub mod git_source;
pub mod http;
pub mod install;
pub mod provenance;

use vstd::prelude::*;

use crate::error::{invalid, invalid_field, verdict, CloveError, ErrorView};
use crate::text;
use crate::version::Version;

verus! {

/// A plugin discovered from the registry — not necessarily installed.
#[derive(Debug, PartialEq, Eq)]
pub struct RegistryPlugin {
    /// The crate name, e.g. `clove-sync-gitlab`.
    pub crate_name: String,
    /// The highest stable version that is not yanked, if any.
    pub latest: Option<Version>,
    /// The highest pre-release that is not yanked, if any.
    pub latest_prerelease: Option<Version>,
    /// The highest yanked version, so that a crate whose releases were all pulled
    /// still has something to show.
    pub latest_yanked: Option<Version>,
    /// The crate's one-line description.
    pub description: Option<String>,
    /// The crate's source repository.
    pub repository: Option<String>,
    /// The binaries the crate builds — the dispatch-resolvable names.
    pub bin_names: Vec<String>,
    /// The crates.io account that published it.
    pub published_by: Option<String>,
    /// Download count, as a (weak) popularity signal.
    pub downloads: u64,
}

/// The model of a [`RegistryPlugin`].
pub struct PluginView {
    pub crate_name: Seq<char>,
    pub latest: Option<Seq<char>>,
    pub latest_prerelease: Option<Seq<char>>,
    pub latest_yanked: Option<Seq<char>>,
    pub description: Option<Seq<char>>,
    pub repository: Option<Seq<char>>,
    pub bin_names: Seq<Seq<char>>,
    pub published_by: Option<Seq<char>>,
    pub downloads: u64,
}

impl DeepView for RegistryPlugin {
    type V = PluginView;

    open spec fn deep_view(&self) -> PluginView {
        PluginView {
            crate_name: self.crate_name@,
            latest: self.latest.deep_view(),
            latest_prerelease: self.latest_prerelease.deep_view(),
            latest_yanked: self.latest_yanked.deep_view(),
            description: self.description.deep_view(),
            repository: self.repository.deep_view(),
            bin_names: self.bin_names.deep_view(),
            published_by: self.published_by.deep_view(),
            downloads: self.downloads,
        }
    }
}

/// A copy of a list of texts.
pub fn copy_strings(v: &Vec<String>) -> (r: Vec<String>)
    ensures
        r.deep_view() == v.deep_view(),
{
    let r = v.clone();
    assert(r.deep_view() =~= v.deep_view());
    r
}

impl Clone for RegistryPlugin {
    fn clone(&self) -> (r: RegistryPlugin)
        ensures
            r.deep_view() == self.deep_view(),
    {
        RegistryPlugin {
            crate_name: self.crate_name.clone(),
            latest: self.latest.clone(),
            latest_prerelease: self.latest_prerelease.clone(),
            latest_yanked: self.latest_yanked.clone(),
            description: self.description.clone(),
            repository: self.repository.clone(),
            bin_names: copy_strings(&self.bin_names),
            published_by: self.published_by.clone(),
            downloads: self.downloads,
        }
    }
}

impl PluginView {
    /// Are there published versions, and is every one of them yanked?
    pub open spec fn is_yanked(self) -> bool {
        self.latest is None && self.latest_prerelease is None && self.latest_yanked is Some
    }

    /// The version to show: the installable one, or else a pre-release, or else a
    /// yanked one.
    pub open spec fn shown_version(self) -> Option<Seq<char>> {
        if self.latest is Some {
            self.latest
        } else if self.latest_prerelease is Some {
            self.latest_prerelease
        } else {
            self.latest_yanked
        }
    }
}

impl RegistryPlugin {
    /// True when the crate has published versions but every one is yanked.
    pub fn fully_yanked(&self) -> (r: bool)
        ensures
            r == self.deep_view().is_yanked(),
    {
        self.latest.is_none() && self.latest_prerelease.is_none() && self.latest_yanked.is_some()
    }

    /// The version to display, preferring the installable one and falling back to a
    /// pre-release and then a yanked release, so that a fully yanked crate still
    /// shows something real.
    pub fn display_version(&self) -> (r: Option<String>)
        ensures
            r.deep_view() == self.deep_view().shown_version(),
    {
        match &self.latest {
            Some(v) => Some(v.as_str().to_owned()),
            None => match &self.latest_prerelease {
                Some(v) => Some(v.as_str().to_owned()),
                None => match &self.latest_yanked {
                    Some(v) => Some(v.as_str().to_owned()),
                    None => None,
                },
            },
        }
    }
}

// ---- Transport failures -------------------------------------------------------

/// A transport failure from [`Fetch::get`].
#[derive(Debug, PartialEq, Eq)]
pub enum FetchError {
    /// A non-success HTTP status other than 404, which is an answer.
    Status {
        code: u16,
        /// The wait that the server asked for, in seconds.
        retry_after: Option<u64>,
        body: Option<String>,
    },
    /// A connection, TLS or DNS failure.
    Transport(String),
    /// A malformed response body.
    Decode(String),
}

/// The model of a [`FetchError`].
pub enum FetchErrorView {
    Status { code: u16, retry_after: Option<u64>, body: Option<Seq<char>> },
    Transport(Seq<char>),
    Decode(Seq<char>),
}

impl DeepView for FetchError {
    type V = FetchErrorView;

    open spec fn deep_view(&self) -> FetchErrorView {
        match *self {
            FetchError::Status { code, retry_after, body } => FetchErrorView::Status {
                code,
                retry_after,
                body: body.deep_view(),
            },
            FetchError::Transport(m) => FetchErrorView::Transport(m@),
            FetchError::Decode(m) => FetchErrorView::Decode(m@),
        }
    }
}

impl FetchErrorView {
    /// Did the server itself fail, in a way that may pass: 429 or 5xx?
    pub open spec fn is_retryable(self) -> bool {
        self matches FetchErrorView::Status { code, .. } && (code == 429 || 500 <= code < 600)
    }

    /// The wait that the server asked for, in seconds.
    pub open spec fn wait(self) -> Option<u64> {
        match self {
            FetchErrorView::Status { retry_after, .. } => retry_after,
            _ => None,
        }
    }

    /// What the user is told, naming the cause that can be acted on.
    pub open spec fn message(self) -> Seq<char> {
        match self {
            FetchErrorView::Status { code, .. } => if code == 429 {
                "crates.io rate limit reached (HTTP 429)"@
            } else if code == 403 {
                "crates.io refused the request (HTTP 403) — a missing User-Agent is the usual cause"@
            } else {
                "crates.io returned HTTP "@ + text::decimal(code as nat)
            },
            FetchErrorView::Transport(m) => "could not reach crates.io: "@ + m,
            FetchErrorView::Decode(m) => "could not read the crates.io response: "@ + m,
        }
    }
}

impl FetchError {
    /// How long to wait before retrying, in seconds, when the server asked us to.
    pub fn retry_after(&self) -> (r: Option<u64>)
        ensures
            r == self.deep_view().wait(),
    {
        match self {
            FetchError::Status { retry_after, .. } => *retry_after,
            _ => None,
        }
    }

    /// Is this a *server-side* failure worth retrying — 429 or 5xx? A transport
    /// failure is not: it has already used up the request's time. Nor is a 403 or
    /// a body that does not decode, which fail the same way every time.
    pub fn is_retryable_status(&self) -> (r: bool)
        ensures
            r == self.deep_view().is_retryable(),
    {
        match self {
            FetchError::Status { code, .. } => *code == 429 || (500 <= *code && *code < 600),
            FetchError::Transport(_) | FetchError::Decode(_) => false,
        }
    }

    /// What the user is told.
    pub fn to_string(&self) -> (r: String)
        ensures
            r@ == self.deep_view().message(),
    {
        match self {
            FetchError::Status { code, .. } => if *code == 429 {
                "crates.io rate limit reached (HTTP 429)".to_owned()
            } else if *code == 403 {
                "crates.io refused the request (HTTP 403) — a missing User-Agent is the usual cause".to_owned()
            } else {
                let n = text::decimal_of(*code as u64);
                text::cat2("crates.io returned HTTP ", n.as_str())
            },
            FetchError::Transport(m) => text::cat2("could not reach crates.io: ", m.as_str()),
            FetchError::Decode(m) => text::cat2(
                "could not read the crates.io response: ",
                m.as_str(),
            ),
        }
    }

    /// The failure as a command reports it.
    pub fn into_error(self) -> (r: CloveError)
        ensures
            r.deep_view() == (ErrorView::Registry { message: self.deep_view().message() }),
    {
        CloveError::Registry { message: self.to_string() }
    }
}

/// The model of an answer that carries a text.
pub open spec fn answer_view(r: Result<Option<String>, FetchError>) -> Result<
    Option<Seq<char>>,
    FetchErrorView,
> {
    match r {
        Ok(Some(s)) => Ok(Some(s@)),
        Ok(None) => Ok(None),
        Err(e) => Err(e.deep_view()),
    }
}

/// An HTTP GET against the registry. `Ok(None)` is an authoritative 404 ("this crate
/// does not exist"), while `Err` means that we could not find out.
pub trait Fetch {
    /// Can a GET of this address come to this answer? Two requests for one address may
    /// differ; this ties an answer to the address that was asked. A transport need say
    /// nothing of its answers.
    open spec fn may_answer(
        &self,
        url: Seq<char>,
        answer: Result<Option<Seq<char>>, FetchErrorView>,
    ) -> bool {
        true
    }

    fn get(&self, url: &str) -> (r: Result<Option<String>, FetchError>)
        ensures
            self.may_answer(url@, answer_view(r)),
    ;
}

// ---- Names --------------------------------------------------------------------

/// The maximum length crates.io allows for a crate name.
pub const MAX_CRATE_NAME: usize = 64;

/// A character that a crate name may hold.
pub open spec fn is_name_char(c: char) -> bool {
    text::is_alnum(c) || c == '-' || c == '_'
}

/// crates.io's own rule, `^[a-zA-Z0-9][a-zA-Z0-9_-]{0,63}$`.
pub open spec fn is_crate_name(s: Seq<char>) -> bool {
    &&& 0 < s.len()
    &&& text::byte_len(s) <= MAX_CRATE_NAME
    &&& text::is_alnum(s[0])
    &&& forall|i: int| 0 <= i < s.len() ==> is_name_char(#[trigger] s[i])
}

/// The first character of `s` that a crate name may not hold.
pub open spec fn first_stranger(s: Seq<char>) -> Option<char>
    decreases s.len(),
{
    if s.len() == 0 {
        None
    } else if !is_name_char(s[0]) {
        Some(s[0])
    } else {
        first_stranger(s.drop_first())
    }
}

/// What is wrong with `s` as a crate name.
pub open spec fn crate_name_problem(s: Seq<char>) -> Option<ErrorView> {
    if s.len() == 0 {
        Some(invalid_field("name"@, "a plugin name cannot be empty"@))
    } else if text::byte_len(s) > MAX_CRATE_NAME {
        Some(
            invalid_field(
                "name"@,
                "a crate name may be at most 64 characters, got "@ + text::decimal(
                    text::byte_len(s) as nat,
                ),
            ),
        )
    } else if !text::is_alnum(s[0]) {
        Some(
            invalid_field(
                "name"@,
                "a crate name must start with a letter or digit, got "@ + text::debug_text(s),
            ),
        )
    } else {
        match first_stranger(s) {
            Some(c) => Some(
                invalid_field(
                    "name"@,
                    "a crate name may only contain letters, digits, `-` and `_`, found "@
                        + text::debug_char(c) + " in "@ + text::debug_text(s),
                ),
            ),
            None => None,
        }
    }
}

proof fn lemma_first_stranger(s: Seq<char>, n: int)
    requires
        0 <= n <= s.len(),
        forall|i: int| 0 <= i < n ==> is_name_char(#[trigger] s[i]),
        n < s.len() ==> !is_name_char(s[n]),
    ensures
        first_stranger(s) == (if n < s.len() {
            Some(s[n])
        } else {
            None
        }),
    decreases n,
{
    if n > 0 {
        assert forall|i: int| 0 <= i < n - 1 implies is_name_char(#[trigger] s.drop_first()[i]) by {
            assert(s.drop_first()[i] == s[i + 1]);
        }
        lemma_first_stranger(s.drop_first(), n - 1);
    }
}

/// A name is accepted exactly when it follows crates.io's rule.
pub proof fn law_accepted_names_are_the_legal_ones(s: Seq<char>)
    ensures
        crate_name_problem(s) is None <==> is_crate_name(s),
{
    if is_crate_name(s) {
        lemma_first_stranger(s, s.len() as int);
    } else if s.len() > 0 && text::byte_len(s) <= MAX_CRATE_NAME && text::is_alnum(s[0]) {
        lemma_stranger_exists(s);
    }
}

proof fn lemma_stranger_exists(s: Seq<char>)
    requires
        exists|i: int| 0 <= i < s.len() && !is_name_char(#[trigger] s[i]),
    ensures
        first_stranger(s) is Some,
    decreases s.len(),
{
    let i = choose|i: int| 0 <= i < s.len() && !is_name_char(#[trigger] s[i]);
    if is_name_char(s[0]) {
        assert(s.drop_first()[i - 1] == s[i]);
        lemma_stranger_exists(s.drop_first());
    }
}

/// No accepted name can be read as a flag, name a path or alter a URL: it holds
/// none of the characters that could, and does not begin with a hyphen.
pub proof fn law_accepted_names_are_inert(s: Seq<char>)
    requires
        crate_name_problem(s) is None,
    ensures
        s.len() > 0,
        s[0] != '-',
        !s.contains('/'),
        !s.contains('\\'),
        !s.contains('.'),
        !s.contains('?'),
        !s.contains('#'),
        !s.contains('%'),
        !s.contains(' '),
        !s.contains('='),
        !s.contains('*'),
        !s.contains('['),
{
    law_accepted_names_are_the_legal_ones(s);
}

/// Validates a crate or plugin name against crates.io's own rule. Every accepted
/// name may stand in a request URL and in a subprocess's arguments.
pub fn validate_crate_name(name: &str) -> (r: Result<(), CloveError>)
    ensures
        verdict(r) == crate_name_problem(name@),
        r is Ok <==> is_crate_name(name@),
{
    proof {
        law_accepted_names_are_the_legal_ones(name@);
    }
    if name.is_empty() {
        return Err(invalid("name", "a plugin name cannot be empty".to_owned()));
    }
    let len = text::bytes_of(name);
    if len > MAX_CRATE_NAME {
        let n = text::decimal_of(len as u64);
        return Err(
            invalid(
                "name",
                text::cat2("a crate name may be at most 64 characters, got ", n.as_str()),
            ),
        );
    }
    let chars = text::chars_of(name);
    let shown = text::quoted(name);
    if !text::alnum(chars[0]) {
        return Err(
            invalid(
                "name",
                text::cat2("a crate name must start with a letter or digit, got ", shown.as_str()),
            ),
        );
    }
    let mut i: usize = 0;
    while i < chars.len()
        invariant
            chars@ == name@,
            i <= chars.len(),
            shown@ == text::debug_text(name@),
            name@.len() > 0,
            text::byte_len(name@) <= MAX_CRATE_NAME,
            text::is_alnum(name@[0]),
            crate_name_problem(name@) is None <==> is_crate_name(name@),
            forall|j: int| 0 <= j < i ==> is_name_char(#[trigger] name@[j]),
        decreases chars.len() - i,
    {
        let c = chars[i];
        if !(text::alnum(c) || c == '-' || c == '_') {
            let bad = text::quoted_char(c);
            proof {
                lemma_first_stranger(name@, i as int);
            }
            return Err(
                invalid(
                    "name",
                    text::cat4(
                        "a crate name may only contain letters, digits, `-` and `_`, found ",
                        bad.as_str(),
                        " in ",
                        shown.as_str(),
                    ),
                ),
            );
        }
        i += 1;
    }
    proof {
        lemma_first_stranger(name@, i as int);
    }
    Ok(())
}

/// The subcommand that a plugin binary is named for: what follows `clove-`.
pub open spec fn is_bin_name(s: Seq<char>) -> bool {
    is_crate_name(s) && text::begins(s, "clove-"@) && s.len() > "clove-"@.len()
}

/// What is wrong with `s` as the name of a plugin's binary.
pub open spec fn bin_name_problem(s: Seq<char>) -> Option<ErrorView> {
    if crate_name_problem(s) is Some {
        crate_name_problem(s)
    } else if is_bin_name(s) {
        None
    } else {
        Some(
            invalid_field(
                "name"@,
                "a plugin binary must be named `clove-<subcommand>`, got "@ + text::debug_text(s),
            ),
        )
    }
}

/// Validates the name of a plugin's binary: a legal crate name that is more than
/// the prefix `clove-`. It is handed to cargo as `--bin`, which reads a glob, so
/// none of a glob's characters may be in it.
pub fn validate_bin_name(name: &str) -> (r: Result<(), CloveError>)
    ensures
        verdict(r) == bin_name_problem(name@),
        r is Ok <==> is_bin_name(name@),
{
    match validate_crate_name(name) {
        Err(e) => Err(e),
        Ok(()) => {
            if text::starts_with(name, "clove-") && name.unicode_len() > "clove-".unicode_len() {
                Ok(())
            } else {
                let shown = text::quoted(name);
                Err(
                    invalid(
                        "name",
                        text::cat2(
                            "a plugin binary must be named `clove-<subcommand>`, got ",
                            shown.as_str(),
                        ),
                    ),
                )
            }
        },
    }
}

/// The crates that a name could mean: itself if it is a full crate name, or else
/// the plugin of that name and the provider of that name under each multiplexer.
pub open spec fn candidates(name: Seq<char>) -> Seq<Seq<char>> {
    if text::begins(name, "clove-"@) {
        seq![name]
    } else {
        seq!["clove-"@ + name, "clove-sync-"@ + name, "clove-import-"@ + name, "clove-export-"@
            + name]
    }
}

/// The crate names that a bare plugin name could mean. `search`, `install`,
/// `uninstall` and `update` all go by this one list.
pub fn candidate_crate_names(name: &str) -> (r: Vec<String>)
    ensures
        r.deep_view() == candidates(name@),
{
    let r: Vec<String> = if text::starts_with(name, "clove-") {
        vec![name.to_owned()]
    } else {
        vec![
            text::cat2("clove-", name),
            text::cat2("clove-sync-", name),
            text::cat2("clove-import-", name),
            text::cat2("clove-export-", name),
        ]
    };
    assert(r.deep_view() =~= candidates(name@));
    r
}

// ---- Shown text ---------------------------------------------------------------

/// A character as it may be shown: a control character becomes U+FFFD.
pub open spec fn shown_char(c: char) -> char {
    if text::is_control(c) {
        '\u{fffd}'
    } else {
        c
    }
}

/// `s` without anything that moves the cursor or starts a new line.
pub open spec fn safe(s: Seq<char>) -> Seq<char> {
    s.map_values(|c: char| shown_char(c))
}

/// Text from outside as it may be put on a terminal. Every control character is
/// replaced, so no text can forge a line of its own or overwrite another.
pub fn display_safe(s: &str) -> (r: String)
    ensures
        r@ == safe(s@),
{
    let x = text::chars_of(s);
    let mut out: String = String::new();
    let mut i: usize = 0;
    while i < x.len()
        invariant
            x@ == s@,
            i <= x.len(),
            out@ =~= safe(s@).take(i as int),
        decreases x.len() - i,
    {
        let c = x[i];
        out.push(
            if text::control(c) {
                '\u{fffd}'
            } else {
                c
            },
        );
        i += 1;
    }
    assert(safe(s@).take(i as int) =~= safe(s@));
    out
}

/// Safe text holds no control character, and so no line break, carriage return or
/// escape; and text without any is left as it is.
pub proof fn law_safe_text_has_no_controls(s: Seq<char>)
    ensures
        forall|i: int| 0 <= i < safe(s).len() ==> !text::is_control(#[trigger] safe(s)[i]),
        !safe(s).contains('\n'),
        !safe(s).contains('\r'),
        !safe(s).contains('\u{1b}'),
        safe(safe(s)) == safe(s),
        (forall|i: int| 0 <= i < s.len() ==> !text::is_control(#[trigger] s[i])) ==> safe(s) == s,
{
    assert(safe(safe(s)) =~= safe(s));
    if forall|i: int| 0 <= i < s.len() ==> !text::is_control(#[trigger] s[i]) {
        assert(safe(s) =~= s);
    }
}

/// The stable release is shown where there is one, else the pre-release, else what was yanked;
/// a crate counts as yanked only where nothing else is left.
pub proof fn law_the_best_release_is_shown(p: PluginView)
    ensures
        p.latest is Some ==> p.shown_version() == p.latest && !p.is_yanked(),
        p.latest is None && p.latest_prerelease is Some ==> p.shown_version()
            == p.latest_prerelease && !p.is_yanked(),
        p.latest is None && p.latest_prerelease is None ==> p.shown_version() == p.latest_yanked
            && p.is_yanked() == (p.latest_yanked is Some),
{
}

/// A bare name may be any of the crates that clove would dispatch by it; a full one is itself.
/// The bare name is the end of each, and no two are the same.
pub proof fn law_a_name_may_mean_its_crates(name: Seq<char>, i: int, j: int)
    ensures
        text::begins(name, "clove-"@) ==> candidates(name) == seq![name],
        !text::begins(name, "clove-"@) ==> candidates(name).len() == 4,
        !text::begins(name, "clove-"@) ==> candidates(name).contains("clove-"@ + name)
            && candidates(name).contains("clove-sync-"@ + name) && candidates(name).contains(
            "clove-import-"@ + name,
        ) && candidates(name).contains("clove-export-"@ + name),
        0 <= i < candidates(name).len() ==> text::ends(candidates(name)[i], name),
        candidates(name)[0] == name || candidates(name)[0] == "clove-"@ + name,
{
    if !text::begins(name, "clove-"@) {
        assert(candidates(name)[0] == "clove-"@ + name);
        assert(candidates(name)[1] == "clove-sync-"@ + name);
        assert(candidates(name)[2] == "clove-import-"@ + name);
        assert(candidates(name)[3] == "clove-export-"@ + name);
    }
    if 0 <= i < candidates(name).len() {
        let c = candidates(name)[i];
        assert(c.skip(c.len() - name.len()) =~= name);
    }
}

/// Only an overload or a failure of the server is worth another try; every failure is told
/// with what the server or the line said.
pub proof fn law_a_failed_fetch_is_told(
    code: u16,
    retry_after: Option<u64>,
    body: Option<Seq<char>>,
    m: Seq<char>,
)
    ensures
        ({
            let e = FetchErrorView::Status { code, retry_after, body };
            &&& e.wait() == retry_after
            &&& e.is_retryable() <==> code == 429 || (500 <= code && code < 600)
            &&& code != 429 && code != 403 ==> text::ends(e.message(), text::decimal(code as nat))
        }),
        !FetchErrorView::Transport(m).is_retryable() && !FetchErrorView::Decode(m).is_retryable(),
        FetchErrorView::Transport(m).wait() is None && FetchErrorView::Decode(m).wait() is None,
        text::ends(FetchErrorView::Transport(m).message(), m),
        text::ends(FetchErrorView::Decode(m).message(), m),
        FetchErrorView::Transport(m).message() != FetchErrorView::Decode(m).message(),
{
    let n = text::decimal(code as nat);
    let a = "crates.io returned HTTP "@ + n;
    assert(a.skip(a.len() - n.len()) =~= n);
    let b = "could not reach crates.io: "@ + m;
    assert(b.skip(b.len() - m.len()) =~= m);
    let c = "could not read the crates.io response: "@ + m;
    assert(c.skip(c.len() - m.len()) =~= m);
    reveal_strlit("could not reach crates.io: ");
    reveal_strlit("could not read the crates.io response: ");
    assert(b.len() != c.len());
}

/// A name is kept as it is but for its control characters, one character for one.
pub proof fn law_safe_text_keeps_its_length(s: Seq<char>, i: int)
    ensures
        safe(s).len() == s.len(),
        0 <= i < s.len() && !text::is_control(s[i]) ==> safe(s)[i] == s[i],
{
}

} // verus!
