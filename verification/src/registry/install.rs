//! Installing, removing and updating plugin binaries: the gates, the consent rule,
//! the exact arguments of cargo, and every line the user decides by.
//!
//! Installing a plugin builds and runs third-party code as the user. The checks
//! here are *shape* checks, not trust checks, and the wording the user sees says
//! so.

use vstd::prelude::*;

use crate::error::{
    invalid, invalid_field, registry_error, registry_failure, told, CloveError, ErrorView,
};
use crate::path;
use crate::registry::provenance::{Installed, InstalledView, Source};
use crate::registry::{
    bin_name_problem, display_safe, is_bin_name, safe, validate_bin_name, PluginView,
    RegistryPlugin,
};
use crate::text;
use crate::version::{is_semver, semver_greater, Version};

verus! {

/// The crate whose reverse dependencies define the registry.
pub const REGISTRY_ROOT_CRATE: &'static str = "clove-plugin";

// ---- Gates --------------------------------------------------------------------

/// How the "does it depend on `clove-plugin`" check came out. "The registry says no"
/// is a reason to refuse; "the registry could not tell us" is a reason to say so.
#[derive(Debug, Clone, Copy, PartialEq, Eq, Structural)]
pub enum DependsOnPlugin {
    /// Present in `clove-plugin`'s reverse dependencies.
    Verified,
    /// The registry answered, and this crate is not among its dependents.
    NotADependent,
    /// The registry could not be consulted (offline, or `clove-plugin` itself
    /// is not published).
    Unverifiable,
}

/// The outcome of the pre-install checks, as reported to the user.
#[derive(Debug, PartialEq, Eq)]
pub struct Gates {
    /// The crate these gates were evaluated for, so the messages can name it.
    pub crate_name: Option<String>,
    pub depends_on_plugin: DependsOnPlugin,
    /// The binary that will be installed — the crate's own, validated name.
    pub dispatchable_bin: Option<String>,
    /// Why no binary qualified, when none did.
    pub bin_problem: Option<String>,
    /// The version that will be installed.
    pub version: Option<String>,
    /// True when the resolved version is yanked.
    pub yanked: bool,
}

/// The model of [`Gates`].
pub struct GatesView {
    pub crate_name: Option<Seq<char>>,
    pub depends_on_plugin: DependsOnPlugin,
    pub dispatchable_bin: Option<Seq<char>>,
    pub bin_problem: Option<Seq<char>>,
    pub version: Option<Seq<char>>,
    pub yanked: bool,
}

impl DeepView for Gates {
    type V = GatesView;

    open spec fn deep_view(&self) -> GatesView {
        GatesView {
            crate_name: self.crate_name.deep_view(),
            depends_on_plugin: self.depends_on_plugin,
            dispatchable_bin: self.dispatchable_bin.deep_view(),
            bin_problem: self.bin_problem.deep_view(),
            version: self.version.deep_view(),
            yanked: self.yanked,
        }
    }
}

impl GatesView {
    /// How the messages name the crate.
    pub open spec fn named(self) -> Seq<char> {
        match self.crate_name {
            Some(n) => "`"@ + safe(n) + "`"@,
            None => "this crate"@,
        }
    }

    /// Why the install cannot go on, before anyone is asked.
    pub open spec fn blocked(self, strict: bool) -> Option<Seq<char>> {
        if self.depends_on_plugin == DependsOnPlugin::NotADependent {
            Some(
                self.named()
                    + " does not depend on `clove-plugin`, so it is not a clove plugin"@,
            )
        } else if strict && self.depends_on_plugin == DependsOnPlugin::Unverifiable {
            Some(
                "could not verify that "@ + self.named()
                    + " depends on `clove-plugin` (the registry could not be consulted), and --strict was given"@,
            )
        } else if self.dispatchable_bin is None {
            match self.bin_problem {
                Some(p) => Some(p),
                None => Some(
                    "this crate builds no `clove-*` binary, so nothing it installs could be run as a clove subcommand"@,
                ),
            }
        } else {
            None
        }
    }
}

impl Gates {
    /// Can the install proceed at all, before asking the user? Fatal are only the
    /// registry positively saying that this is no plugin, and a crate that builds
    /// nothing dispatchable; an unverifiable dependency is left to the prompt,
    /// unless the caller asked for `--strict`.
    pub fn blocking_reason(&self, strict: bool) -> (r: Option<String>)
        ensures
            r.deep_view() == self.deep_view().blocked(strict),
    {
        let named: String = match &self.crate_name {
            Some(n) => {
                let shown = display_safe(n.as_str());
                text::cat3("`", shown.as_str(), "`")
            },
            None => "this crate".to_owned(),
        };
        if self.depends_on_plugin == DependsOnPlugin::NotADependent {
            return Some(
                text::cat2(
                    named.as_str(),
                    " does not depend on `clove-plugin`, so it is not a clove plugin",
                ),
            );
        }
        if strict && self.depends_on_plugin == DependsOnPlugin::Unverifiable {
            return Some(
                text::cat3(
                    "could not verify that ",
                    named.as_str(),
                    " depends on `clove-plugin` (the registry could not be consulted), and --strict was given",
                ),
            );
        }
        if self.dispatchable_bin.is_none() {
            return match &self.bin_problem {
                Some(p) => Some(p.clone()),
                None => Some(
                    "this crate builds no `clove-*` binary, so nothing it installs could be run as a clove subcommand".to_owned(),
                ),
            };
        }
        None
    }
}

/// The names of binaries, as a message lists them.
pub open spec fn listed(bins: Seq<Seq<char>>) -> Seq<char> {
    if bins.len() == 0 {
        "none"@
    } else {
        text::joined(Seq::new(bins.len(), |i: int| safe(bins[i])), ", "@)
    }
}

/// The binary that a crate is allowed to install: its own, of a legal name.
pub open spec fn own_bin(c: PluginView) -> Result<Seq<char>, ErrorView> {
    match bin_name_problem(c.crate_name) {
        Some(e) => Err(e),
        None => if c.bin_names.contains(c.crate_name) {
            Ok(c.crate_name)
        } else {
            Err(
                invalid_field(
                    "name"@,
                    "`"@ + c.crate_name
                        + "` does not build a binary of its own name (it declares "@ + listed(
                        c.bin_names,
                    ) + "), so clove cannot tell which binary you would be installing"@,
                ),
            )
        },
    }
}

/// Is `name` one of `list`?
pub fn list_has(list: &Vec<String>, name: &str) -> (r: bool)
    ensures
        r == list.deep_view().contains(name@),
{
    let ghost all = list.deep_view();
    let mut i: usize = 0;
    while i < list.len()
        invariant
            i <= list.len(),
            all == list.deep_view(),
            forall|j: int| 0 <= j < i ==> #[trigger] all[j] != name@,
        decreases list.len() - i,
    {
        if text::same(list[i].as_str(), name) {
            assert(all[i as int] == name@);
            return true;
        }
        i += 1;
    }
    false
}

fn list_bins(bins: &Vec<String>) -> (r: String)
    ensures
        r@ == listed(bins.deep_view()),
{
    if bins.len() == 0 {
        return "none".to_owned();
    }
    let ghost all = bins.deep_view();
    let mut shown: Vec<String> = Vec::new();
    let mut i: usize = 0;
    while i < bins.len()
        invariant
            i <= bins.len(),
            all == bins.deep_view(),
            shown.len() == i,
            forall|j: int| 0 <= j < i ==> (#[trigger] shown@[j])@ == safe(all[j]),
        decreases bins.len() - i,
    {
        shown.push(display_safe(bins[i].as_str()));
        i += 1;
    }
    assert(shown.deep_view() =~= Seq::new(all.len(), |i: int| safe(all[i])));
    text::join(&shown, ", ")
}

/// The binary this crate is allowed to install. It must be the crate's **own**
/// name, or a crate could place another plugin's binary on the search path.
pub fn dispatchable_bin(candidate: &RegistryPlugin) -> (r: Result<&str, CloveError>)
    ensures
        match r {
            Ok(s) => own_bin(candidate.deep_view()) == Ok::<Seq<char>, ErrorView>(s@),
            Err(e) => own_bin(candidate.deep_view()) == Err::<Seq<char>, ErrorView>(e.deep_view()),
        },
{
    let expected: &str = candidate.crate_name.as_str();
    match validate_bin_name(expected) {
        Err(e) => Err(e),
        Ok(()) => if list_has(&candidate.bin_names, expected) {
            Ok(expected)
        } else {
            let bins = list_bins(&candidate.bin_names);
            Err(
                invalid(
                    "name",
                    text::cat5(
                        "`",
                        expected,
                        "` does not build a binary of its own name (it declares ",
                        bins.as_str(),
                        "), so clove cannot tell which binary you would be installing",
                    ),
                ),
            )
        },
    }
}

/// The gates of a candidate, given the crates that depend on `clove-plugin`.
pub open spec fn gates_of(c: PluginView, dependents: Option<Seq<Seq<char>>>) -> GatesView {
    GatesView {
        crate_name: Some(c.crate_name),
        depends_on_plugin: match dependents {
            Some(names) => if names.contains(c.crate_name) {
                DependsOnPlugin::Verified
            } else {
                DependsOnPlugin::NotADependent
            },
            None => DependsOnPlugin::Unverifiable,
        },
        dispatchable_bin: match own_bin(c) {
            Ok(bin) => Some(bin),
            Err(_) => None,
        },
        bin_problem: match own_bin(c) {
            Ok(_) => None,
            Err(e) => Some(told(e)),
        },
        version: c.shown_version(),
        yanked: c.is_yanked(),
    }
}

/// Evaluates the pre-install checks for `candidate`. `dependents` is the registry's
/// answer, which the caller fetched live: `None` when it could not be consulted.
pub fn evaluate(candidate: &RegistryPlugin, dependents: Option<&Vec<String>>) -> (r: Gates)
    ensures
        r.deep_view() == gates_of(
            candidate.deep_view(),
            match dependents {
                Some(names) => Some(names.deep_view()),
                None => None,
            },
        ),
{
    let depends_on_plugin = match dependents {
        Some(names) => if list_has(names, candidate.crate_name.as_str()) {
            DependsOnPlugin::Verified
        } else {
            DependsOnPlugin::NotADependent
        },
        None => DependsOnPlugin::Unverifiable,
    };
    let (dispatchable, bin_problem): (Option<String>, Option<String>) = match dispatchable_bin(
        candidate,
    ) {
        Ok(bin) => (Some(bin.to_owned()), None),
        Err(e) => (None, Some(e.to_string())),
    };
    Gates {
        crate_name: Some(candidate.crate_name.clone()),
        depends_on_plugin,
        dispatchable_bin: dispatchable,
        bin_problem,
        version: candidate.display_version(),
        yanked: candidate.fully_yanked(),
    }
}

/// A candidate that passes the gates installs a binary of its own, legal name — so
/// it can take over no other plugin's subcommand — and the registry did not disown
/// it; under `--strict` the registry has vouched for it.
pub proof fn law_passing_the_gates(
    c: PluginView,
    dependents: Option<Seq<Seq<char>>>,
    strict: bool,
)
    requires
        gates_of(c, dependents).blocked(strict) is None,
    ensures
        gates_of(c, dependents).dispatchable_bin == Some(c.crate_name),
        is_bin_name(c.crate_name),
        c.bin_names.contains(c.crate_name),
        dependents matches Some(names) ==> names.contains(c.crate_name),
        strict ==> dependents is Some,
{
    crate::registry::law_accepted_names_are_the_legal_ones(c.crate_name);
}

// ---- Consent ------------------------------------------------------------------

/// Whether the user has consented to an install. A non-interactive run refuses:
/// automation states its intent with `--yes`, and silence is not consent.
#[derive(Debug, Clone, Copy, PartialEq, Eq, Structural)]
pub enum Consent {
    /// `--yes` was given: proceed without asking.
    Granted,
    /// Interactive and human-readable: ask.
    Ask,
    /// No TTY, or a machine-readable format, and no `--yes`: refuse.
    Refuse,
}

/// How consent must be obtained.
pub open spec fn consent(yes: bool, human: bool, stdin_tty: bool, stderr_tty: bool) -> Consent {
    if yes {
        Consent::Granted
    } else if human && stdin_tty && stderr_tty {
        Consent::Ask
    } else {
        Consent::Refuse
    }
}

/// Decides how consent must be obtained. `human` is whether the output format is the
/// human one — a prompt written into a JSON envelope would corrupt it.
pub fn consent_policy(yes: bool, human: bool, stdin_tty: bool, stderr_tty: bool) -> (r: Consent)
    ensures
        r == consent(yes, human, stdin_tty, stderr_tty),
{
    if yes {
        return Consent::Granted;
    }
    if human && stdin_tty && stderr_tty {
        return Consent::Ask;
    }
    Consent::Refuse
}

/// Nothing but `--yes` grants consent, and the question is only ever asked of a
/// person at a terminal who reads the human format.
pub proof fn law_silence_is_not_consent(
    yes: bool,
    human: bool,
    stdin_tty: bool,
    stderr_tty: bool,
)
    ensures
        consent(yes, human, stdin_tty, stderr_tty) == Consent::Granted <==> yes,
        consent(yes, human, stdin_tty, stderr_tty) == Consent::Ask ==> human && stdin_tty
            && stderr_tty,
{
}

/// The message shown when consent cannot be obtained.
pub open spec fn refusal() -> Seq<char> {
    "installing builds and runs third-party code, so it needs an explicit decision; re-run with --yes to confirm, or run it in a terminal"@
}

/// The message shown when consent cannot be obtained.
pub fn refusal_message() -> (r: String)
    ensures
        r@ == refusal(),
{
    "installing builds and runs third-party code, so it needs an explicit decision; re-run with --yes to confirm, or run it in a terminal".to_owned()
}

/// Is a line read from the terminal a yes?
pub open spec fn is_yes(line: Option<Seq<char>>) -> bool {
    match line {
        Some(l) => {
            let answer = text::lowered(text::trimmed(l));
            answer == "y"@ || answer == "yes"@
        },
        None => false,
    }
}

/// Is the line that was read a yes? Nothing read — the end of input, or a terminal
/// that could not be read — is a no.
pub fn confirmed(line: Option<&str>) -> (r: bool)
    ensures
        r == is_yes(text::opt_view(line)),
{
    match line {
        Some(line) => {
            let answer = text::to_ascii_lowercase(text::trim(line));
            text::same(answer.as_str(), "y") || text::same(answer.as_str(), "yes")
        },
        None => false,
    }
}

// ---- What the user decides by -------------------------------------------------

/// A line of the prompt, if there is a value for it.
pub open spec fn opt_line(label: Seq<char>, value: Option<Seq<char>>) -> Seq<char> {
    match value {
        Some(v) => label + safe(v) + "\n"@,
        None => Seq::empty(),
    }
}

/// The closing question of every install prompt.
pub open spec fn question() -> Seq<char> {
    "  Installing builds and runs third-party code as you. Continue? [y/N] "@
}

/// What the checks say, without any claim that the plugin is safe.
pub open spec fn checks_line(d: DependsOnPlugin) -> Seq<char> {
    match d {
        DependsOnPlugin::Verified => "depends on clove-plugin; matches the clove plugin convention"@,
        DependsOnPlugin::Unverifiable => "could NOT verify it depends on clove-plugin (registry unavailable)"@,
        DependsOnPlugin::NotADependent => "not a clove plugin"@,
    }
}

/// The confirmation that the user is asked to approve.
pub open spec fn prompt(c: PluginView, g: GatesView, shadows: Option<Seq<char>>) -> Seq<char> {
    let version = match g.version {
        Some(v) => safe(v),
        None => safe("?"@),
    };
    "  "@ + safe(c.crate_name) + " "@ + version + "\n"@ + "  checks:    "@ + checks_line(
        g.depends_on_plugin,
    ) + " — not audited"@ + "\n"@ + opt_line("  installs:  "@, g.dispatchable_bin) + opt_line(
        "  REPLACES:  "@,
        shadows,
    ) + opt_line("  owner:     "@, c.published_by) + opt_line("  repo:      "@, c.repository)
        + "  downloads: "@ + text::decimal(c.downloads as nat) + "\n"@ + "\n"@ + question()
}

/// Appends a line of the prompt, if there is a value for it.
fn push_line(out: &mut String, label: &str, value: Option<&str>)
    ensures
        final(out)@ == old(out)@ + opt_line(label@, text::opt_view(value)),
{
    match value {
        Some(v) => {
            out.append(label);
            out.append(display_safe(v).as_str());
            out.append("\n");
            assert(out@ =~= old(out)@ + opt_line(label@, text::opt_view(value)));
        },
        None => {
            assert(out@ =~= old(out)@ + opt_line(label@, text::opt_view(value)));
        },
    }
}

/// A borrowed view of an optional text.
pub fn borrowed(o: &Option<String>) -> (r: Option<&str>)
    ensures
        text::opt_view(r) == o.deep_view(),
{
    match o {
        Some(s) => Some(s.as_str()),
        None => None,
    }
}

/// Renders the confirmation the user is asked to approve. Every value comes from
/// the registry's answer, so each is shown without control characters.
pub fn prompt_text(candidate: &RegistryPlugin, gates: &Gates, shadows: Option<&str>) -> (r: String)
    ensures
        r@ == prompt(candidate.deep_view(), gates.deep_view(), text::opt_view(shadows)),
{
    let version: String = match &gates.version {
        Some(v) => display_safe(v.as_str()),
        None => display_safe("?"),
    };
    let mut out: String = "  ".to_owned();
    out.append(display_safe(candidate.crate_name.as_str()).as_str());
    out.append(" ");
    out.append(version.as_str());
    out.append("\n");
    out.append("  checks:    ");
    out.append(
        match gates.depends_on_plugin {
            DependsOnPlugin::Verified => "depends on clove-plugin; matches the clove plugin convention",
            DependsOnPlugin::Unverifiable => "could NOT verify it depends on clove-plugin (registry unavailable)",
            DependsOnPlugin::NotADependent => "not a clove plugin",
        },
    );
    out.append(" — not audited");
    out.append("\n");
    push_line(&mut out, "  installs:  ", borrowed(&gates.dispatchable_bin));
    // The single most consequential fact when it applies: this install silently
    // takes over a subcommand that currently runs a different binary.
    push_line(&mut out, "  REPLACES:  ", shadows);
    push_line(&mut out, "  owner:     ", borrowed(&candidate.published_by));
    push_line(&mut out, "  repo:      ", borrowed(&candidate.repository));
    out.append("  downloads: ");
    out.append(text::decimal_of(candidate.downloads).as_str());
    out.append("\n");
    out.append("\n");
    out.append("  Installing builds and runs third-party code as you. Continue? [y/N] ");
    out
}

/// The confirmation for an install from a git repository.
pub open spec fn git_prompt(
    url: Seq<char>,
    package: Seq<char>,
    bin: Seq<char>,
    commit: Seq<char>,
    shadows: Option<Seq<char>>,
) -> Seq<char> {
    "  "@ + safe(package) + "\n"@
        + "  checks:    depends on clove-plugin; matches the clove plugin convention — not audited"@
        + "\n"@ + opt_line("  installs:  "@, Some(bin)) + opt_line("  REPLACES:  "@, shadows)
        + opt_line("  source:    "@, Some(url)) + opt_line("  commit:    "@, Some(commit)) + "\n"@
        + question()
}

/// Renders the confirmation for `plugin install --git <url>`. The evidence is only
/// the URL the user typed, what the cloned manifest claims about itself, and the
/// commit that will be built.
pub fn git_prompt_text(
    url: &str,
    package: &str,
    bin: &str,
    commit: &str,
    shadows: Option<&str>,
) -> (r: String)
    ensures
        r@ == git_prompt(url@, package@, bin@, commit@, text::opt_view(shadows)),
{
    let mut out: String = "  ".to_owned();
    out.append(display_safe(package).as_str());
    out.append("\n");
    out.append(
        "  checks:    depends on clove-plugin; matches the clove plugin convention — not audited",
    );
    out.append("\n");
    push_line(&mut out, "  installs:  ", Some(bin));
    push_line(&mut out, "  REPLACES:  ", shadows);
    push_line(&mut out, "  source:    ", Some(url));
    push_line(&mut out, "  commit:    ", Some(commit));
    out.append("\n");
    out.append("  Installing builds and runs third-party code as you. Continue? [y/N] ");
    out
}

/// Text that ends no line and moves no cursor.
pub open spec fn plain(s: Seq<char>) -> bool {
    forall|i: int| 0 <= i < s.len() ==> !text::is_control(#[trigger] s[i])
}

/// Text whose only control characters are line ends, `n` of them.
pub open spec fn has_lines(s: Seq<char>, n: nat) -> bool {
    &&& text::count(s, '\n') == n
    &&& forall|i: int| 0 <= i < s.len() && text::is_control(#[trigger] s[i]) ==> s[i] == '\n'
}

proof fn lemma_plain(s: Seq<char>)
    requires
        plain(s),
    ensures
        has_lines(s, 0),
{
    assert(!s.contains('\n'));
    text::lemma_count_absent(s, '\n');
}

proof fn lemma_lines_add(a: Seq<char>, b: Seq<char>, n: nat, m: nat)
    requires
        has_lines(a, n),
        has_lines(b, m),
    ensures
        has_lines(a + b, n + m),
{
    text::lemma_count_add(a, b, '\n');
    assert forall|i: int| 0 <= i < (a + b).len() && text::is_control(#[trigger] (a + b)[i]) implies (a
        + b)[i] == '\n' by {
        if i < a.len() {
            assert((a + b)[i] == a[i]);
        } else {
            assert((a + b)[i] == b[i - a.len()]);
        }
    }
}

proof fn lemma_decimal_plain(n: nat)
    ensures
        plain(text::decimal(n)),
    decreases n,
{
    if n >= 10 {
        lemma_decimal_plain(n / 10);
    }
}

proof fn lemma_line_end()
    ensures
        has_lines("\n"@, 1),
{
    reveal_strlit("\n");
    assert("\n"@.drop_last() =~= Seq::<char>::empty());
    reveal_with_fuel(text::count, 2);
}

proof fn lemma_opt_line(label: Seq<char>, value: Option<Seq<char>>)
    requires
        plain(label),
    ensures
        has_lines(opt_line(label, value), if value is Some { 1 } else { 0 }),
{
    match value {
        Some(v) => {
            crate::registry::law_safe_text_has_no_controls(v);
            lemma_line_end();
            lemma_plain(label);
            lemma_plain(safe(v));
            lemma_lines_add(label, safe(v), 0, 0);
            lemma_lines_add(label + safe(v), "\n"@, 0, 1);
        },
        None => {},
    }
}

proof fn lemma_prompt_labels()
    ensures
        plain("  "@),
        plain(" "@),
        plain("  checks:    "@),
        plain(" — not audited"@),
        plain("  installs:  "@),
        plain("  REPLACES:  "@),
        plain("  owner:     "@),
        plain("  repo:      "@),
        plain("  downloads: "@),
        plain("  source:    "@),
        plain("  commit:    "@),
        plain(question()),
        plain(checks_line(DependsOnPlugin::Verified)),
        plain(checks_line(DependsOnPlugin::Unverifiable)),
        plain(checks_line(DependsOnPlugin::NotADependent)),
        plain(
            "  checks:    depends on clove-plugin; matches the clove plugin convention — not audited"@,
        ),
{
    reveal_strlit("  ");
    reveal_strlit(" ");
    reveal_strlit("  checks:    ");
    reveal_strlit(" — not audited");
    reveal_strlit("  installs:  ");
    reveal_strlit("  REPLACES:  ");
    reveal_strlit("  owner:     ");
    reveal_strlit("  repo:      ");
    reveal_strlit("  downloads: ");
    reveal_strlit("  source:    ");
    reveal_strlit("  commit:    ");
    reveal_strlit("  Installing builds and runs third-party code as you. Continue? [y/N] ");
    reveal_strlit("depends on clove-plugin; matches the clove plugin convention");
    reveal_strlit("could NOT verify it depends on clove-plugin (registry unavailable)");
    reveal_strlit("not a clove plugin");
    reveal_strlit(
        "  checks:    depends on clove-plugin; matches the clove plugin convention — not audited",
    );
}

/// No field of the registry's answer can forge a line of the prompt or overwrite
/// one: its line ends are exactly the ones it is laid out with, and it holds no
/// other control character.
pub proof fn law_prompt_lines_cannot_be_forged(
    c: PluginView,
    g: GatesView,
    shadows: Option<Seq<char>>,
)
    ensures
        has_lines(
            prompt(c, g, shadows),
            4 + (if g.dispatchable_bin is Some {
                1nat
            } else {
                0nat
            }) + (if shadows is Some {
                1nat
            } else {
                0nat
            }) + (if c.published_by is Some {
                1nat
            } else {
                0nat
            }) + (if c.repository is Some {
                1nat
            } else {
                0nat
            }),
        ),
{
    lemma_prompt_labels();
    lemma_line_end();
    let version = match g.version {
        Some(v) => safe(v),
        None => safe("?"@),
    };
    crate::registry::law_safe_text_has_no_controls(c.crate_name);
    crate::registry::law_safe_text_has_no_controls(
        match g.version {
            Some(v) => v,
            None => "?"@,
        },
    );
    lemma_decimal_plain(c.downloads as nat);
    lemma_plain("  "@);
    lemma_plain(safe(c.crate_name));
    lemma_plain(" "@);
    lemma_plain(version);
    lemma_plain("  checks:    "@);
    lemma_plain(checks_line(g.depends_on_plugin));
    lemma_plain(" — not audited"@);
    lemma_plain("  downloads: "@);
    lemma_plain(text::decimal(c.downloads as nat));
    lemma_plain(question());
    lemma_opt_line("  installs:  "@, g.dispatchable_bin);
    lemma_opt_line("  REPLACES:  "@, shadows);
    lemma_opt_line("  owner:     "@, c.published_by);
    lemma_opt_line("  repo:      "@, c.repository);
    let s1 = "  "@ + safe(c.crate_name);
    lemma_lines_add("  "@, safe(c.crate_name), 0, 0);
    let s2 = s1 + " "@;
    lemma_lines_add(s1, " "@, 0, 0);
    let s3 = s2 + version;
    lemma_lines_add(s2, version, 0, 0);
    let s4 = s3 + "\n"@;
    lemma_lines_add(s3, "\n"@, 0, 1);
    let s5 = s4 + "  checks:    "@;
    lemma_lines_add(s4, "  checks:    "@, 1, 0);
    let s6 = s5 + checks_line(g.depends_on_plugin);
    lemma_lines_add(s5, checks_line(g.depends_on_plugin), 1, 0);
    let s7 = s6 + " — not audited"@;
    lemma_lines_add(s6, " — not audited"@, 1, 0);
    let s8 = s7 + "\n"@;
    lemma_lines_add(s7, "\n"@, 1, 1);
    let n1: nat = 2 + (if g.dispatchable_bin is Some { 1nat } else { 0nat });
    let s9 = s8 + opt_line("  installs:  "@, g.dispatchable_bin);
    lemma_lines_add(s8, opt_line("  installs:  "@, g.dispatchable_bin), 2, (n1 - 2) as nat);
    let n2: nat = n1 + (if shadows is Some { 1nat } else { 0nat });
    let s10 = s9 + opt_line("  REPLACES:  "@, shadows);
    lemma_lines_add(s9, opt_line("  REPLACES:  "@, shadows), n1, (n2 - n1) as nat);
    let n3: nat = n2 + (if c.published_by is Some { 1nat } else { 0nat });
    let s11 = s10 + opt_line("  owner:     "@, c.published_by);
    lemma_lines_add(s10, opt_line("  owner:     "@, c.published_by), n2, (n3 - n2) as nat);
    let n4: nat = n3 + (if c.repository is Some { 1nat } else { 0nat });
    let s12 = s11 + opt_line("  repo:      "@, c.repository);
    lemma_lines_add(s11, opt_line("  repo:      "@, c.repository), n3, (n4 - n3) as nat);
    let s13 = s12 + "  downloads: "@;
    lemma_lines_add(s12, "  downloads: "@, n4, 0);
    let s14 = s13 + text::decimal(c.downloads as nat);
    lemma_lines_add(s13, text::decimal(c.downloads as nat), n4, 0);
    let s15 = s14 + "\n"@;
    lemma_lines_add(s14, "\n"@, n4, 1);
    let s16 = s15 + "\n"@;
    lemma_lines_add(s15, "\n"@, n4 + 1, 1);
    lemma_lines_add(s16, question(), n4 + 2, 0);
}

/// The same holds of the prompt for a git install, whose names are read from a
/// foreign manifest.
pub proof fn law_git_prompt_lines_cannot_be_forged(
    url: Seq<char>,
    package: Seq<char>,
    bin: Seq<char>,
    commit: Seq<char>,
    shadows: Option<Seq<char>>,
)
    ensures
        has_lines(
            git_prompt(url, package, bin, commit, shadows),
            if shadows is Some {
                7
            } else {
                6
            },
        ),
{
    lemma_prompt_labels();
    lemma_line_end();
    crate::registry::law_safe_text_has_no_controls(package);
    let checks = "  checks:    depends on clove-plugin; matches the clove plugin convention — not audited"@;
    lemma_plain("  "@);
    lemma_plain(safe(package));
    lemma_plain(checks);
    lemma_plain(question());
    lemma_opt_line("  installs:  "@, Some(bin));
    lemma_opt_line("  REPLACES:  "@, shadows);
    lemma_opt_line("  source:    "@, Some(url));
    lemma_opt_line("  commit:    "@, Some(commit));
    let k: nat = if shadows is Some { 1 } else { 0 };
    let s1 = "  "@ + safe(package);
    lemma_lines_add("  "@, safe(package), 0, 0);
    let s2 = s1 + "\n"@;
    lemma_lines_add(s1, "\n"@, 0, 1);
    let s3 = s2 + checks;
    lemma_lines_add(s2, checks, 1, 0);
    let s4 = s3 + "\n"@;
    lemma_lines_add(s3, "\n"@, 1, 1);
    let s5 = s4 + opt_line("  installs:  "@, Some(bin));
    lemma_lines_add(s4, opt_line("  installs:  "@, Some(bin)), 2, 1);
    let s6 = s5 + opt_line("  REPLACES:  "@, shadows);
    lemma_lines_add(s5, opt_line("  REPLACES:  "@, shadows), 3, k);
    let s7 = s6 + opt_line("  source:    "@, Some(url));
    lemma_lines_add(s6, opt_line("  source:    "@, Some(url)), 3 + k, 1);
    let s8 = s7 + opt_line("  commit:    "@, Some(commit));
    lemma_lines_add(s7, opt_line("  commit:    "@, Some(commit)), 4 + k, 1);
    let s9 = s8 + "\n"@;
    lemma_lines_add(s8, "\n"@, 5 + k, 1);
    lemma_lines_add(s9, question(), 6 + k, 0);
}

// ---- cargo's arguments --------------------------------------------------------

/// The model of the arguments of a crates.io install: the root, the single binary
/// and the exact version are fixed, and the package stands behind `--`, where it
/// cannot be read as an option.
pub open spec fn install_args(
    package: Seq<char>,
    version: Option<Seq<char>>,
    bin: Seq<char>,
    root: Seq<char>,
    force: bool,
) -> Seq<Seq<char>> {
    seq!["install"@, "--locked"@, "--root"@, root, "--bin"@, bin] + (match version {
        Some(v) => seq!["--version"@, "="@ + v],
        None => Seq::empty(),
    }) + (if force {
        seq!["--force"@]
    } else {
        Seq::empty()
    }) + seq!["--"@, package]
}

/// The `cargo install` arguments for a crates.io install. `--bin` keeps a crate from
/// installing more binaries than the one that was agreed to, and `--version =X.Y.Z`
/// pins the version whose metadata was shown.
pub fn cargo_install_argv(
    package: &str,
    version: Option<&str>,
    bin: &str,
    root: &str,
    force: bool,
) -> (r: Vec<String>)
    ensures
        r.deep_view() == install_args(package@, text::opt_view(version), bin@, root@, force),
{
    let mut argv: Vec<String> = vec![
        "install".to_owned(),
        "--locked".to_owned(),
        "--root".to_owned(),
        root.to_owned(),
        "--bin".to_owned(),
        bin.to_owned(),
    ];
    if let Some(v) = version {
        argv.push("--version".to_owned());
        argv.push(text::cat2("=", v));
    }
    if force {
        argv.push("--force".to_owned());
    }
    argv.push("--".to_owned());
    argv.push(package.to_owned());
    assert(argv.deep_view() =~= install_args(
        package@,
        text::opt_view(version),
        bin@,
        root@,
        force,
    ));
    argv
}

/// The arguments of an uninstall.
pub open spec fn uninstall_args(package: Seq<char>, root: Seq<char>) -> Seq<Seq<char>> {
    seq!["uninstall"@, "--root"@, root, "--"@, package]
}

/// The `cargo uninstall` arguments. It takes the **package** name.
pub fn cargo_uninstall_argv(package: &str, root: &str) -> (r: Vec<String>)
    ensures
        r.deep_view() == uninstall_args(package@, root@),
{
    let argv: Vec<String> = vec![
        "uninstall".to_owned(),
        "--root".to_owned(),
        root.to_owned(),
        "--".to_owned(),
        package.to_owned(),
    ];
    assert(argv.deep_view() =~= uninstall_args(package@, root@));
    argv
}

/// Undoes an install whose post-build probe rejected it: the rejected binary is
/// already on the search path, so it is removed like any other.
pub fn rollback_argv(package: &str, root: &str) -> (r: Vec<String>)
    ensures
        r.deep_view() == uninstall_args(package@, root@),
{
    cargo_uninstall_argv(package, root)
}

/// What comes behind the `--` of an install is the package and nothing else, and the
/// binary is named once.
pub proof fn law_install_names_one_package_and_one_binary(
    package: Seq<char>,
    version: Option<Seq<char>>,
    bin: Seq<char>,
    root: Seq<char>,
    force: bool,
)
    ensures
        install_args(package, version, bin, root, force).last() == package,
        install_args(package, version, bin, root, force)[install_args(
            package,
            version,
            bin,
            root,
            force,
        ).len() - 2] == "--"@,
        install_args(package, version, bin, root, force)[4] == "--bin"@,
        install_args(package, version, bin, root, force)[5] == bin,
        version matches Some(v) ==> install_args(package, version, bin, root, force)[7] == "="@ + v,
{
}

/// What is said of a plugin that resolves from outside the clove-managed root.
pub open spec fn foreign_install(name: Seq<char>, path: Seq<char>, root: Seq<char>) -> Seq<char> {
    "`"@ + name + "` resolves from "@ + path + ", which is outside the clove-managed root ("@ + root
        + "). clove can only manage what it installed; remove it with the tool that installed it (for a `cargo install`, `cargo uninstall`)."@
}

/// A plugin that resolves from outside the clove-managed root is named, with how to
/// remove it.
pub fn foreign_install_message(name: &str, path: &str, root: &str) -> (r: String)
    ensures
        r@ == foreign_install(name@, path@, root@),
{
    text::cat7(
        "`",
        name,
        "` resolves from ",
        path,
        ", which is outside the clove-managed root (",
        root,
        "). clove can only manage what it installed; remove it with the tool that installed it (for a `cargo install`, `cargo uninstall`).",
    )
}

/// Maps a cargo invocation failure onto a clove error.
pub open spec fn cargo_failed(command: Seq<char>, code: Option<i32>) -> ErrorView {
    registry_failure(
        match code {
            Some(c) => "`cargo "@ + command + "` failed (exit "@ + text::signed_decimal(c as int)
                + ")"@,
            None => "`cargo "@ + command + "` was terminated by a signal"@,
        },
    )
}

pub fn cargo_failure(command: &str, code: Option<i32>) -> (r: CloveError)
    ensures
        r.deep_view() == cargo_failed(command@, code),
{
    registry_error(
        match code {
            Some(c) => {
                let n = text::signed_decimal_of(c);
                text::cat5("`cargo ", command, "` failed (exit ", n.as_str(), ")")
            },
            None => text::cat3("`cargo ", command, "` was terminated by a signal"),
        },
    )
}

/// `cargo` is missing from the machine.
pub open spec fn no_cargo() -> ErrorView {
    registry_failure(
        "`cargo` was not found on PATH; installing a plugin builds it from source, so a Rust toolchain is required (see https://rustup.rs)"@,
    )
}

pub fn cargo_missing() -> (r: CloveError)
    ensures
        r.deep_view() == no_cargo(),
{
    registry_error(
        "`cargo` was not found on PATH; installing a plugin builds it from source, so a Rust toolchain is required (see https://rustup.rs)".to_owned(),
    )
}

// ---- Updates ------------------------------------------------------------------

/// What `update` should do about one installed package.
#[derive(Debug, PartialEq, Eq)]
pub enum UpdateVerdict {
    /// Move to this version.
    Newer(String),
    /// Do nothing, for this reason.
    Hold(Hold),
}

/// Why an installed package is not being updated.
#[derive(Debug, PartialEq, Eq)]
pub enum Hold {
    /// The newest published version is the installed one.
    UpToDate,
    /// The registry's newest is older than what is installed.
    RegistryBehind(String),
    /// Only a pre-release is available, and `update` does not move to those.
    PrereleaseOnly(String),
    /// The installed version is not a semver version, so nothing is comparable.
    LocalUnparseable,
    /// Nothing published under this name to compare against.
    NoCandidate,
    /// Not installed from the registry, so `update` never looked. The text is the
    /// source label, which names how to update it instead.
    NotChecked(String),
}

/// The model of an [`UpdateVerdict`].
pub enum VerdictView {
    Newer(Seq<char>),
    UpToDate,
    RegistryBehind(Seq<char>),
    PrereleaseOnly(Seq<char>),
    LocalUnparseable,
    NoCandidate,
    NotChecked(Seq<char>),
}

impl DeepView for UpdateVerdict {
    type V = VerdictView;

    open spec fn deep_view(&self) -> VerdictView {
        match *self {
            UpdateVerdict::Newer(v) => VerdictView::Newer(v@),
            UpdateVerdict::Hold(Hold::UpToDate) => VerdictView::UpToDate,
            UpdateVerdict::Hold(Hold::RegistryBehind(v)) => VerdictView::RegistryBehind(v@),
            UpdateVerdict::Hold(Hold::PrereleaseOnly(v)) => VerdictView::PrereleaseOnly(v@),
            UpdateVerdict::Hold(Hold::LocalUnparseable) => VerdictView::LocalUnparseable,
            UpdateVerdict::Hold(Hold::NoCandidate) => VerdictView::NoCandidate,
            UpdateVerdict::Hold(Hold::NotChecked(l)) => VerdictView::NotChecked(l@),
        }
    }
}

/// How a published version compares with the installed one.
#[derive(Debug, Clone, Copy, PartialEq, Eq, Structural)]
pub enum Relation {
    Greater,
    Same,
    Less,
}

/// What follows from how the published versions compare with the installed one.
/// `latest` is the newest stable version and `prerelease` the newest pre-release
/// with whether it is greater.
pub open spec fn decided(
    latest: Option<(Seq<char>, Relation)>,
    prerelease: Option<(Seq<char>, bool)>,
) -> VerdictView {
    match latest {
        Some((v, Relation::Greater)) => VerdictView::Newer(v),
        Some((v, Relation::Same)) => VerdictView::UpToDate,
        Some((v, Relation::Less)) => VerdictView::RegistryBehind(v),
        None => match prerelease {
            Some((v, true)) => VerdictView::PrereleaseOnly(v),
            _ => VerdictView::NoCandidate,
        },
    }
}

/// Decides from how the published versions compare with the installed one. A
/// pre-release is reported but never moved to.
pub fn decide(latest: Option<(&str, Relation)>, prerelease: Option<(&str, bool)>) -> (r:
    UpdateVerdict)
    ensures
        r.deep_view() == decided(
            match latest {
                Some((v, relation)) => Some((v@, relation)),
                None => None,
            },
            match prerelease {
                Some((v, greater)) => Some((v@, greater)),
                None => None,
            },
        ),
{
    match latest {
        Some((v, Relation::Greater)) => UpdateVerdict::Newer(v.to_owned()),
        Some((_, Relation::Same)) => UpdateVerdict::Hold(Hold::UpToDate),
        Some((v, Relation::Less)) => UpdateVerdict::Hold(Hold::RegistryBehind(v.to_owned())),
        None => match prerelease {
            Some((v, true)) => UpdateVerdict::Hold(Hold::PrereleaseOnly(v.to_owned())),
            _ => UpdateVerdict::Hold(Hold::NoCandidate),
        },
    }
}

/// How `a` compares with `b` in semver's order.
pub open spec fn relation(a: Seq<char>, b: Seq<char>) -> Relation {
    if semver_greater(a, b) {
        Relation::Greater
    } else if a == b {
        Relation::Same
    } else {
        Relation::Less
    }
}

/// What `update` should do about an installed package, given what is published.
pub open spec fn verdict_of(i: InstalledView, c: Option<PluginView>) -> VerdictView {
    if !(i.source is Registry) {
        VerdictView::NotChecked(i.source.shown())
    } else {
        match c {
            None => VerdictView::NoCandidate,
            Some(c) => if !is_semver(i.version) {
                VerdictView::LocalUnparseable
            } else {
                decided(
                    match c.latest {
                        Some(v) => Some((v, relation(v, i.version))),
                        None => None,
                    },
                    match c.latest_prerelease {
                        Some(v) => Some((v, semver_greater(v, i.version))),
                        None => None,
                    },
                )
            },
        }
    }
}

/// Is this package one `update` can re-resolve from crates.io?
pub fn updatable_from_registry(installed: &Installed) -> (r: bool)
    ensures
        r == (installed.deep_view().source is Registry),
{
    match installed.source {
        Source::Registry => true,
        _ => false,
    }
}

/// Decides whether `candidate` is an update for `installed`. The question is whether
/// it is *greater*: a lagging mirror that offers an older version is never an
/// upgrade, and a plugin that did not come from the registry was not looked at.
pub fn update_verdict(installed: &Installed, candidate: Option<&RegistryPlugin>) -> (r:
    UpdateVerdict)
    ensures
        r.deep_view() == verdict_of(
            installed.deep_view(),
            match candidate {
                Some(c) => Some(c.deep_view()),
                None => None,
            },
        ),
{
    if !updatable_from_registry(installed) {
        return UpdateVerdict::Hold(Hold::NotChecked(installed.source.label()));
    }
    let candidate: &RegistryPlugin = match candidate {
        Some(c) => c,
        None => return UpdateVerdict::Hold(Hold::NoCandidate),
    };
    let current = match Version::parse(installed.version.as_str()) {
        Some(v) => v,
        None => return UpdateVerdict::Hold(Hold::LocalUnparseable),
    };
    let latest: Option<(&str, Relation)> = match &candidate.latest {
        Some(v) => if v.newer_than(&current) {
            Some((v.as_str(), Relation::Greater))
        } else if v.same_as(&current) {
            Some((v.as_str(), Relation::Same))
        } else {
            Some((v.as_str(), Relation::Less))
        },
        None => None,
    };
    let prerelease: Option<(&str, bool)> = match &candidate.latest_prerelease {
        Some(v) => Some((v.as_str(), v.newer_than(&current))),
        None => None,
    };
    decide(latest, prerelease)
}

/// `update` moves only a registry install, only to the newest stable version, and
/// only when that is strictly greater than the installed one.
pub proof fn law_updates_only_move_forward(i: InstalledView, c: Option<PluginView>)
    ensures
        verdict_of(i, c) matches VerdictView::Newer(v) ==> {
            &&& i.source is Registry
            &&& c matches Some(p) && p.latest == Some(v)
            &&& is_semver(i.version)
            &&& semver_greater(v, i.version)
        },
{
}

/// The line that tells what `update` would do about one package.
pub open spec fn update_text(i: InstalledView, v: VerdictView) -> Seq<char> {
    let front = "  "@ + safe(i.package) + " "@ + safe(i.version);
    match v {
        VerdictView::Newer(v) => front + " → "@ + safe(v),
        VerdictView::UpToDate => front + " (up to date)"@,
        VerdictView::RegistryBehind(v) => front + " (kept — the registry's newest is "@ + safe(v)
            + ", which is older)"@,
        VerdictView::PrereleaseOnly(v) => front + " (kept — "@ + safe(v)
            + " is a pre-release; install it explicitly to move to it)"@,
        VerdictView::LocalUnparseable => front
            + " (kept — the installed version is not a semver version, so nothing can be compared)"@,
        VerdictView::NoCandidate => front + " (nothing published under this name)"@,
        VerdictView::NotChecked(label) => front + " ("@ + safe(label)
            + " — not checked; reinstall to update it)"@,
    }
}

/// Summarizes what `update` would change for one installed package. Every value is shown
/// without control characters: the name, the version and the source come out of a file that
/// others may have written, and the version that is offered comes from the registry.
pub fn update_line(installed: &Installed, verdict: &UpdateVerdict) -> (r: String)
    ensures
        r@ == update_text(installed.deep_view(), verdict.deep_view()),
{
    let package = display_safe(installed.package.as_str());
    let version = display_safe(installed.version.as_str());
    let front = text::cat4("  ", package.as_str(), " ", version.as_str());
    match verdict {
        UpdateVerdict::Newer(v) => {
            let shown = display_safe(v.as_str());
            text::cat3(front.as_str(), " → ", shown.as_str())
        },
        UpdateVerdict::Hold(Hold::UpToDate) => text::cat2(front.as_str(), " (up to date)"),
        UpdateVerdict::Hold(Hold::RegistryBehind(v)) => {
            let shown = display_safe(v.as_str());
            text::cat4(
                front.as_str(),
                " (kept — the registry's newest is ",
                shown.as_str(),
                ", which is older)",
            )
        },
        UpdateVerdict::Hold(Hold::PrereleaseOnly(v)) => {
            let shown = display_safe(v.as_str());
            text::cat4(
                front.as_str(),
                " (kept — ",
                shown.as_str(),
                " is a pre-release; install it explicitly to move to it)",
            )
        },
        UpdateVerdict::Hold(Hold::LocalUnparseable) => text::cat2(
            front.as_str(),
            " (kept — the installed version is not a semver version, so nothing can be compared)",
        ),
        UpdateVerdict::Hold(Hold::NoCandidate) => text::cat2(
            front.as_str(),
            " (nothing published under this name)",
        ),
        UpdateVerdict::Hold(Hold::NotChecked(label)) => {
            let shown = display_safe(label.as_str());
            text::cat4(
                front.as_str(),
                " (",
                shown.as_str(),
                " — not checked; reinstall to update it)",
            )
        },
    }
}

/// The text out of a verdict that its line shows, if it shows one.
pub open spec fn shown_in(v: VerdictView) -> Seq<char> {
    match v {
        VerdictView::Newer(v) => v,
        VerdictView::RegistryBehind(v) => v,
        VerdictView::PrereleaseOnly(v) => v,
        VerdictView::NotChecked(label) => label,
        _ => Seq::empty(),
    }
}

proof fn lemma_update_labels()
    ensures
        plain("  "@),
        plain(" "@),
        plain(" → "@),
        plain(" (up to date)"@),
        plain(" (kept — the registry's newest is "@),
        plain(", which is older)"@),
        plain(" (kept — "@),
        plain(" is a pre-release; install it explicitly to move to it)"@),
        plain(
            " (kept — the installed version is not a semver version, so nothing can be compared)"@,
        ),
        plain(" (nothing published under this name)"@),
        plain(" ("@),
        plain(" — not checked; reinstall to update it)"@),
{
    reveal_strlit("  ");
    reveal_strlit(" ");
    reveal_strlit(" → ");
    reveal_strlit(" (up to date)");
    reveal_strlit(" (kept — the registry's newest is ");
    reveal_strlit(", which is older)");
    reveal_strlit(" (kept — ");
    reveal_strlit(" is a pre-release; install it explicitly to move to it)");
    reveal_strlit(
        " (kept — the installed version is not a semver version, so nothing can be compared)",
    );
    reveal_strlit(" (nothing published under this name)");
    reveal_strlit(" (");
    reveal_strlit(" — not checked; reinstall to update it)");
}

/// One package is one line of the update plan, whatever cargo's file and the registry say of
/// it: the line holds no control character.
pub proof fn law_update_plan_cannot_be_forged(i: InstalledView, v: VerdictView)
    ensures
        plain(update_text(i, v)),
{
    lemma_update_labels();
    crate::registry::law_safe_text_has_no_controls(i.package);
    crate::registry::law_safe_text_has_no_controls(i.version);
    crate::registry::law_safe_text_has_no_controls(shown_in(v));
    let front = "  "@ + safe(i.package) + " "@ + safe(i.version);
    assert(plain(front));
}

// ---- Paths --------------------------------------------------------------------

/// The install root's `bin/` directory.
pub fn bin_dir(root: &str) -> (r: String)
    ensures
        path::extends(root@, "bin"@, r@),
{
    proof {
        reveal_strlit("bin");
    }
    path::join(root, "bin")
}

/// Is `path` the file of a binary in the `bin/` directory under `root`?
pub open spec fn is_binary_path(
    root: Seq<char>,
    bin: Seq<char>,
    exe_suffix: Seq<char>,
    path: Seq<char>,
) -> bool {
    exists|dir: Seq<char>|
        #[trigger] path::extends(root, "bin"@, dir) && path::extends(dir, bin + exe_suffix, path)
}

/// The file of a binary with a legal name is one component, so that the path of an installed
/// binary is always directly in `bin/`.
pub proof fn law_a_plugin_is_one_file(bin: Seq<char>, exe_suffix: Seq<char>)
    requires
        is_bin_name(bin),
        path::is_suffix(exe_suffix),
    ensures
        path::is_component(bin + exe_suffix),
{
    reveal_strlit("clove-");
    let name = bin + exe_suffix;
    assert(bin.take(6) =~= "clove-"@);
    assert(name[1] == bin.take(6)[1]);
    assert forall|i: int| 0 <= i < name.len() implies #[trigger] name[i] != '/' && name[i] != '\\' by {
        if i < bin.len() {
            assert(name[i] == bin[i]);
        } else {
            assert(name[i] == exe_suffix[i - bin.len()]);
            assert(exe_suffix.contains(exe_suffix[i - bin.len()]));
        }
    }
}

/// The on-disk path of an installed plugin binary, with `exe_suffix` the platform's
/// executable suffix, which cargo adds to the file.
pub fn installed_binary_path_with(root: &str, bin: &str, exe_suffix: &str) -> (r: String)
    ensures
        path::is_component(bin@ + exe_suffix@) ==> is_binary_path(root@, bin@, exe_suffix@, r@),
{
    let dir = bin_dir(root);
    let file = text::cat2(bin, exe_suffix);
    path::join(dir.as_str(), file.as_str())
}

// ---- What is checked, asked and built -------------------------------------------

/// A crate that is no dependent of the plugin crate is always refused; one that could not be
/// checked only when that was insisted on; and one that builds no binary of its own name is
/// refused. Nothing else is.
pub proof fn law_only_what_fails_a_gate_is_refused(g: GatesView, strict: bool)
    ensures
        g.blocked(strict) is Some <==> {
            ||| g.depends_on_plugin == DependsOnPlugin::NotADependent
            ||| strict && g.depends_on_plugin == DependsOnPlugin::Unverifiable
            ||| g.dispatchable_bin is None
        },
        g.depends_on_plugin == DependsOnPlugin::NotADependent ==> (g.crate_name matches Some(n)
            ==> text::occurs(g.blocked(strict)->0, safe(n))),
{
    if let Some(n) = g.crate_name {
        text::lemma_occurs_between("`"@, safe(n), "`"@);
        text::lemma_occurs_in_front(
            g.named(),
            " does not depend on `clove-plugin`, so it is not a clove plugin"@,
            safe(n),
        );
    }
}

/// The gates are those of the candidate: its name, the version that is shown of it, whether
/// that is yanked, its own binary if it builds one, and whether it is among the dependents.
pub proof fn law_the_gates_are_those_of_the_candidate(
    c: PluginView,
    dependents: Option<Seq<Seq<char>>>,
)
    ensures
        ({
            let g = gates_of(c, dependents);
            &&& g.crate_name == Some(c.crate_name)
            &&& g.version == c.shown_version()
            &&& g.yanked == c.is_yanked()
            &&& dependents is None <==> g.depends_on_plugin == DependsOnPlugin::Unverifiable
            &&& dependents matches Some(names) ==> (g.depends_on_plugin == DependsOnPlugin::Verified
                <==> names.contains(c.crate_name))
            &&& g.dispatchable_bin is Some <==> is_bin_name(c.crate_name) && c.bin_names.contains(
                c.crate_name,
            )
            &&& g.dispatchable_bin matches Some(b) ==> b == c.crate_name
            &&& g.bin_problem is None <==> g.dispatchable_bin is Some
        }),
{
    crate::registry::law_accepted_names_are_the_legal_ones(c.crate_name);
}

/// It is asked only at a terminal that people read and write; `--yes` needs no question, and
/// anything else is refused.
pub proof fn law_it_is_asked_only_at_a_terminal(
    yes: bool,
    human: bool,
    stdin_tty: bool,
    stderr_tty: bool,
)
    ensures
        consent(yes, human, stdin_tty, stderr_tty) == Consent::Ask <==> !yes && human && stdin_tty
            && stderr_tty,
        consent(yes, human, stdin_tty, stderr_tty) == Consent::Refuse <==> !yes && !(human
            && stdin_tty && stderr_tty),
{
}

/// Only `y` and `yes` are a yes, whatever their case and the blanks around them; no answer is
/// a no.
pub proof fn law_only_a_yes_is_a_yes(l: Seq<char>)
    ensures
        is_yes(None) == false,
        is_yes(Some(l)) <==> text::lowered(text::trimmed(l)) == "y"@ || text::lowered(
            text::trimmed(l),
        ) == "yes"@,
{
}

proof fn lemma_parts_occur(
    front: Seq<char>,
    a: Seq<char>,
    b: Seq<char>,
    c: Seq<char>,
    d: Seq<char>,
    n: Seq<char>,
    back: Seq<char>,
)
    ensures
        text::occurs(front + a + b + c + d + n + back, a),
        text::occurs(front + a + b + c + d + n + back, b),
        text::occurs(front + a + b + c + d + n + back, c),
        text::occurs(front + a + b + c + d + n + back, d),
        text::occurs(front + a + b + c + d + n + back, n),
{
    let s = front + a + b + c + d + n + back;
    assert(s =~= front + a + (b + c + d + n + back));
    text::lemma_occurs_between(front, a, b + c + d + n + back);
    assert(s =~= (front + a) + b + (c + d + n + back));
    text::lemma_occurs_between(front + a, b, c + d + n + back);
    assert(s =~= (front + a + b) + c + (d + n + back));
    text::lemma_occurs_between(front + a + b, c, d + n + back);
    assert(s =~= (front + a + b + c) + d + (n + back));
    text::lemma_occurs_between(front + a + b + c, d, n + back);
    text::lemma_occurs_between(front + a + b + c + d, n, back);
}

proof fn lemma_grouped(a: Seq<char>, b: Seq<char>, c: Seq<char>)
    ensures
        a + b + c == a + (b + c),
{
    assert(a + b + c =~= a + (b + c));
}

proof fn lemma_begun(a: Seq<char>, b: Seq<char>, start: Seq<char>)
    requires
        text::begins(a, start) || a == start,
    ensures
        text::begins(a + b, start),
{
    assert((a + b).take(start.len() as int) =~= a.take(start.len() as int));
    assert(a == start ==> a.take(start.len() as int) =~= start);
}

proof fn lemma_question_parts(
    two: Seq<char>,
    name: Seq<char>,
    gap: Seq<char>,
    version: Seq<char>,
    nl: Seq<char>,
    label: Seq<char>,
    line: Seq<char>,
    tail: Seq<char>,
    a: Seq<char>,
    b: Seq<char>,
    c: Seq<char>,
    d: Seq<char>,
    count: Seq<char>,
    n: Seq<char>,
    q: Seq<char>,
)
    ensures
        ({
            let s = two + name + gap + version + nl + label + line + tail + nl + a + b + c + d
                + count + n + nl + nl + q;
            &&& text::begins(s, two + name)
            &&& text::begins(s, two + name + gap + version)
            &&& text::occurs(s, label + line)
            &&& text::occurs(s, a)
            &&& text::occurs(s, b)
            &&& text::occurs(s, c)
            &&& text::occurs(s, d)
            &&& text::occurs(s, count + n + nl)
            &&& text::ends(s, q)
        }),
{
    let head = two + name + gap + version;
    let front = head + nl + label + line + tail + nl;
    let most = front + a + b + c + d;
    let last = count + n + nl;
    lemma_grouped(most, count, n);
    lemma_grouped(most, count + n, nl);
    lemma_grouped(most + last, nl, q);
    lemma_parts_occur(front, a, b, c, d, last, nl + q);
    lemma_grouped(head + nl, label, line);
    text::lemma_occurs_between(head + nl, label + line, Seq::empty());
    assert((head + nl) + (label + line) + Seq::<char>::empty() =~= head + nl + label + line);
    text::lemma_occurs_in_front(head + nl + label + line, tail, label + line);
    text::lemma_occurs_in_front(head + nl + label + line + tail, nl, label + line);
    text::lemma_occurs_in_front(front, a, label + line);
    text::lemma_occurs_in_front(front + a, b, label + line);
    text::lemma_occurs_in_front(front + a + b, c, label + line);
    text::lemma_occurs_in_front(front + a + b + c, d, label + line);
    text::lemma_occurs_in_front(most, count, label + line);
    text::lemma_occurs_in_front(most + count, n, label + line);
    text::lemma_occurs_in_front(most + count + n, nl, label + line);
    text::lemma_occurs_in_front(most + count + n + nl, nl, label + line);
    text::lemma_occurs_in_front(most + count + n + nl + nl, q, label + line);
    lemma_begun(two + name, gap, two + name);
    lemma_begun(two + name + gap, version, two + name);
    lemma_begun(head, nl, two + name);
    lemma_begun(head, nl, head);
    lemma_begun(head + nl, label, two + name);
    lemma_begun(head + nl, label, head);
    lemma_begun(head + nl + label, line, two + name);
    lemma_begun(head + nl + label, line, head);
    lemma_begun(head + nl + label + line, tail, two + name);
    lemma_begun(head + nl + label + line, tail, head);
    lemma_begun(head + nl + label + line + tail, nl, two + name);
    lemma_begun(head + nl + label + line + tail, nl, head);
    lemma_begun(front, a, two + name);
    lemma_begun(front, a, head);
    lemma_begun(front + a, b, two + name);
    lemma_begun(front + a, b, head);
    lemma_begun(front + a + b, c, two + name);
    lemma_begun(front + a + b, c, head);
    lemma_begun(front + a + b + c, d, two + name);
    lemma_begun(front + a + b + c, d, head);
    lemma_begun(most, count, two + name);
    lemma_begun(most, count, head);
    lemma_begun(most + count, n, two + name);
    lemma_begun(most + count, n, head);
    lemma_begun(most + count + n, nl, two + name);
    lemma_begun(most + count + n, nl, head);
    lemma_begun(most + count + n + nl, nl, two + name);
    lemma_begun(most + count + n + nl, nl, head);
    lemma_begun(most + count + n + nl + nl, q, two + name);
    lemma_begun(most + count + n + nl + nl, q, head);
    let rest = most + count + n + nl + nl;
    assert((rest + q).skip(rest.len() as int) =~= q);
}

/// A question shows what it is about: the name, what is installed and what that replaces, who
/// published it, where its source is, and how often it was downloaded, each behind its label.
pub proof fn law_the_question_shows_what_it_is_about(
    c: PluginView,
    g: GatesView,
    shadows: Option<Seq<char>>,
)
    ensures
        text::begins(prompt(c, g, shadows), "  "@ + safe(c.crate_name)),
        g.version matches Some(v) ==> text::begins(
            prompt(c, g, shadows),
            "  "@ + safe(c.crate_name) + " "@ + safe(v),
        ),
        text::occurs(prompt(c, g, shadows), "  checks:    "@ + checks_line(g.depends_on_plugin)),
        g.dispatchable_bin matches Some(b) ==> text::occurs(
            prompt(c, g, shadows),
            "  installs:  "@ + safe(b) + "\n"@,
        ),
        shadows matches Some(s) ==> text::occurs(
            prompt(c, g, shadows),
            "  REPLACES:  "@ + safe(s) + "\n"@,
        ),
        c.published_by matches Some(p) ==> text::occurs(
            prompt(c, g, shadows),
            "  owner:     "@ + safe(p) + "\n"@,
        ),
        c.repository matches Some(r) ==> text::occurs(
            prompt(c, g, shadows),
            "  repo:      "@ + safe(r) + "\n"@,
        ),
        text::occurs(
            prompt(c, g, shadows),
            "  downloads: "@ + text::decimal(c.downloads as nat) + "\n"@,
        ),
        text::ends(prompt(c, g, shadows), question()),
{
    let version = match g.version {
        Some(v) => safe(v),
        None => safe("?"@),
    };
    lemma_question_parts(
        "  "@,
        safe(c.crate_name),
        " "@,
        version,
        "\n"@,
        "  checks:    "@,
        checks_line(g.depends_on_plugin),
        " — not audited"@,
        opt_line("  installs:  "@, g.dispatchable_bin),
        opt_line("  REPLACES:  "@, shadows),
        opt_line("  owner:     "@, c.published_by),
        opt_line("  repo:      "@, c.repository),
        "  downloads: "@,
        text::decimal(c.downloads as nat),
        question(),
    );
}

/// A question on a repository shows the package, what is installed and what that replaces, the
/// repository, and the commit that was inspected.
pub proof fn law_the_question_on_a_repository_shows_the_commit(
    url: Seq<char>,
    package: Seq<char>,
    bin: Seq<char>,
    commit: Seq<char>,
    shadows: Option<Seq<char>>,
)
    ensures
        ({
            let s = git_prompt(url, package, bin, commit, shadows);
            &&& text::begins(s, "  "@ + safe(package) + "\n"@)
            &&& text::occurs(s, "  installs:  "@ + safe(bin) + "\n"@)
            &&& text::occurs(s, "  source:    "@ + safe(url) + "\n"@)
            &&& text::occurs(s, "  commit:    "@ + safe(commit) + "\n"@)
            &&& shadows matches Some(x) ==> text::occurs(s, "  REPLACES:  "@ + safe(x) + "\n"@)
            &&& text::ends(s, question())
        }),
{
    let s = git_prompt(url, package, bin, commit, shadows);
    let q = question();
    let head = "  "@ + safe(package) + "\n"@;
    let front = head
        + "  checks:    depends on clove-plugin; matches the clove plugin convention — not audited"@
        + "\n"@;
    let a = opt_line("  installs:  "@, Some(bin));
    let b = opt_line("  REPLACES:  "@, shadows);
    let c = opt_line("  source:    "@, Some(url));
    let d = opt_line("  commit:    "@, Some(commit));
    assert(s =~= front + a + b + c + d + "\n"@ + q);
    assert(s.take(head.len() as int) =~= head);
    assert(s.skip(s.len() - q.len()) =~= q);
    assert(s =~= front + a + b + c + d + Seq::<char>::empty() + ("\n"@ + q));
    lemma_parts_occur(front, a, b, c, d, Seq::empty(), "\n"@ + q);
}

/// cargo is told the root, the binary and, if there is one, exactly the version; it replaces
/// what is there only when forced. To uninstall it is told the same root and the package.
pub proof fn law_cargo_is_told_what_was_decided(
    package: Seq<char>,
    version: Option<Seq<char>>,
    bin: Seq<char>,
    root: Seq<char>,
    force: bool,
)
    ensures
        ({
            let args = install_args(package, version, bin, root, force);
            &&& args[0] == "install"@
            &&& args[1] == "--locked"@
            &&& args[2] == "--root"@ && args[3] == root
            &&& args[4] == "--bin"@ && args[5] == bin
            &&& version matches Some(v) ==> args[6] == "--version"@ && args[7] == "="@ + v
            &&& args.len() == 8 + (if version is Some {
                2int
            } else {
                0
            }) + (if force {
                1int
            } else {
                0
            })
            &&& force ==> args[args.len() - 3] == "--force"@
        }),
        ({
            let args = uninstall_args(package, root);
            &&& args[0] == "uninstall"@ && args[1] == "--root"@ && args[2] == root
            &&& args.last() == package && args[args.len() - 2] == "--"@
        }),
{
}

/// What an update comes to: a newer version is taken, the same is up to date, an older one is
/// passed by; a pre-release that is newer is told of only where there is nothing else.
pub proof fn law_an_update_is_decided_by_the_version(i: InstalledView, c: PluginView)
    ensures
        !(i.source is Registry) ==> verdict_of(i, Some(c)) is NotChecked,
        verdict_of(i, None) is NoCandidate || !(i.source is Registry),
        i.source is Registry && !is_semver(i.version) ==> verdict_of(i, Some(c)) is LocalUnparseable,
        i.source is Registry && is_semver(i.version) ==> match c.latest {
            Some(v) => {
                &&& semver_greater(v, i.version) <==> verdict_of(i, Some(c)) == VerdictView::Newer(v)
                &&& !semver_greater(v, i.version) && v == i.version ==> verdict_of(i, Some(c))
                    is UpToDate
                &&& !semver_greater(v, i.version) && v != i.version ==> verdict_of(i, Some(c))
                    == VerdictView::RegistryBehind(v)
            },
            None => match c.latest_prerelease {
                Some(v) => verdict_of(i, Some(c)) == (if semver_greater(v, i.version) {
                    VerdictView::PrereleaseOnly(v)
                } else {
                    VerdictView::NoCandidate
                }),
                None => verdict_of(i, Some(c)) is NoCandidate,
            },
        },
{
}

/// The line on an update shows the package and the version that is installed, and the one it
/// moves to or is kept back from.
pub proof fn law_an_update_line_shows_both_versions(i: InstalledView, v: VerdictView)
    ensures
        text::begins(update_text(i, v), "  "@ + safe(i.package) + " "@ + safe(i.version)),
        v matches VerdictView::Newer(n) ==> text::ends(update_text(i, v), " → "@ + safe(n)),
        v matches VerdictView::RegistryBehind(n) ==> text::occurs(update_text(i, v), safe(n)),
        v matches VerdictView::PrereleaseOnly(n) ==> text::occurs(update_text(i, v), safe(n)),
        v is UpToDate ==> text::ends(update_text(i, v), " (up to date)"@),
{
    let front = "  "@ + safe(i.package) + " "@ + safe(i.version);
    let s = update_text(i, v);
    assert(s.take(front.len() as int) =~= front);
    match v {
        VerdictView::Newer(n) => {
            let back = " → "@ + safe(n);
            assert(s =~= front + back);
            assert(s.skip(front.len() as int) =~= back);
        },
        VerdictView::RegistryBehind(n) => {
            text::lemma_occurs_between(
                front + " (kept — the registry's newest is "@,
                safe(n),
                ", which is older)"@,
            );
        },
        VerdictView::PrereleaseOnly(n) => {
            text::lemma_occurs_between(
                front + " (kept — "@,
                safe(n),
                " is a pre-release; install it explicitly to move to it)"@,
            );
        },
        VerdictView::UpToDate => {
            assert(s.skip(front.len() as int) =~= " (up to date)"@);
        },
        _ => {},
    }
}

/// A plugin that clove did not install is named, with where it is and where clove's own are.
pub proof fn law_what_clove_cannot_manage_is_named(
    name: Seq<char>,
    path: Seq<char>,
    root: Seq<char>,
)
    ensures
        text::begins(foreign_install(name, path, root), "`"@ + name + "` resolves from "@ + path),
        text::occurs(
            foreign_install(name, path, root),
            ", which is outside the clove-managed root ("@ + root,
        ),
{
    let a = "`"@ + name + "` resolves from "@ + path;
    let b = ", which is outside the clove-managed root ("@ + root;
    let s = foreign_install(name, path, root);
    let end = s.skip((a + b).len() as int);
    assert(s =~= a + b + end);
    text::lemma_occurs_between(a, b, end);
    assert(s.take(a.len() as int) =~= a);
}

/// A failed build says which command failed and how.
pub proof fn law_a_failed_build_says_how(command: Seq<char>, code: i32)
    ensures
        cargo_failed(command, Some(code)) matches ErrorView::Registry { message } && message
            == "`cargo "@ + command + "` failed (exit "@ + text::signed_decimal(code as int)
            + ")"@,
        cargo_failed(command, None) matches ErrorView::Registry { message } && text::begins(
            message,
            "`cargo "@ + command,
        ),
{
    if let ErrorView::Registry { message } = cargo_failed(command, None) {
        let a = "`cargo "@ + command;
        assert(message.take(a.len() as int) =~= a);
    }
}

} // verus!
