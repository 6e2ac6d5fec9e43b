//! `clove plugin list` and `clove plugin search`.
//!
//! `plugin list` without flags never touches the network. `plugin list --all` and
//! `plugin search` also consult the registry. Discovery is strictly additive: if it
//! fails the installed plugins are still printed, and the reason is a warning.

use vstd::prelude::*;

use crate::json::{
    law_distinct_pairs_are_members, law_objects_hold_their_pairs, num, number, obj, object, string,
    string_or_null, strings, text_or_null, texts, Json, JsonView,
};
use crate::output::{
    item_lines, jsonl_lines, law_a_success_carries_its_data, pairs, success, success_envelope, Out, OutView, OutputFormat,
};
use crate::plugin::{run_as, reached_as, EnrichedPlugin, EnrichedView, PluginStatus};
use crate::registry::crates_io::{dependents_view, CratesIo};
use crate::registry::install::borrowed;
use crate::registry::provenance::{bare_subcommand_with, subcommand};
use crate::registry::{
    candidate_crate_names, candidates, is_crate_name, law_accepted_names_are_the_legal_ones,
    validate_crate_name, Fetch, FetchErrorView, PluginView, RegistryPlugin,
};
use crate::error::{CloveError, ErrorView};
use crate::text;
use crate::version::{is_semver, semver_greater, Version};

verus! {

// ---- Discovery ----------------------------------------------------------------

/// The outcome of a discovery attempt.
#[derive(Debug, PartialEq, Eq)]
pub enum Discovery {
    /// The registry answered. `None` means `clove-plugin` is not published, so there is
    /// nothing to discover and nothing is wrong.
    Available(Option<Vec<RegistryPlugin>>),
    /// Discovery failed, for this reason.
    Failed(String),
}

/// The model of a [`Discovery`].
pub enum DiscoveryView {
    Available(Option<Seq<PluginView>>),
    Failed(Seq<char>),
}

impl DeepView for Discovery {
    type V = DiscoveryView;

    open spec fn deep_view(&self) -> DiscoveryView {
        match *self {
            Discovery::Available(p) => DiscoveryView::Available(p.deep_view()),
            Discovery::Failed(m) => DiscoveryView::Failed(m@),
        }
    }
}

impl DiscoveryView {
    /// The plugins that were found.
    pub open spec fn found(self) -> Seq<PluginView> {
        match self {
            DiscoveryView::Available(Some(p)) => p,
            _ => Seq::empty(),
        }
    }

    /// What the user is told if the attempt yielded no usable registry. An answer that
    /// is not `fresh` may be a day old, so it is phrased as what was observed and names
    /// the flag that asks again.
    pub open spec fn warned(self, fresh: bool) -> Option<Seq<char>> {
        match self {
            DiscoveryView::Available(Some(_)) => None,
            DiscoveryView::Available(None) => Some(
                if fresh {
                    "no plugin registry found: `clove-plugin` is not published to crates.io, so no plugins can be discovered"@
                } else {
                    "no plugin registry found: `clove-plugin` was not published to crates.io as of the last check, so no plugins can be discovered (re-check with --refresh)"@
                },
            ),
            DiscoveryView::Failed(m) => Some(m),
        }
    }
}

impl Discovery {
    /// The plugins that were found.
    pub fn plugins(&self) -> (r: Vec<RegistryPlugin>)
        ensures
            r.deep_view() == self.deep_view().found(),
    {
        match self {
            Discovery::Available(Some(p)) => copy_plugins(p),
            _ => {
                let none: Vec<RegistryPlugin> = Vec::new();
                assert(none.deep_view() =~= Seq::<PluginView>::empty());
                none
            },
        }
    }

    /// The warning, if this attempt did not yield a usable registry.
    pub fn warning(&self, fresh: bool) -> (r: Option<String>)
        ensures
            r.deep_view() == self.deep_view().warned(fresh),
    {
        match self {
            Discovery::Available(Some(_)) => None,
            Discovery::Available(None) => Some(
                if fresh {
                    "no plugin registry found: `clove-plugin` is not published to crates.io, so no plugins can be discovered".to_owned()
                } else {
                    "no plugin registry found: `clove-plugin` was not published to crates.io as of the last check, so no plugins can be discovered (re-check with --refresh)".to_owned()
                },
            ),
            Discovery::Failed(m) => Some(m.clone()),
        }
    }
}

fn copy_plugins(v: &Vec<RegistryPlugin>) -> (r: Vec<RegistryPlugin>)
    ensures
        r.deep_view() == v.deep_view(),
{
    let mut out: Vec<RegistryPlugin> = Vec::new();
    let mut i: usize = 0;
    while i < v.len()
        invariant
            i <= v.len(),
            out.len() == i,
            forall|j: int| 0 <= j < i ==> (#[trigger] out@[j]).deep_view() == v@[j].deep_view(),
        decreases v.len() - i,
    {
        out.push(v[i].clone());
        i += 1;
    }
    assert(out.deep_view() =~= v.deep_view());
    out
}

/// What a walk over the registry comes to as a discovery.
pub open spec fn discovery_of(
    end: Result<Option<Seq<PluginView>>, FetchErrorView>,
) -> DiscoveryView {
    match end {
        Ok(found) => DiscoveryView::Available(found),
        Err(e) => DiscoveryView::Failed(e.message()),
    }
}

/// A discovery against the live registry, without the cache: what a walk over the crates
/// that depend on `clove-plugin` came to.
pub fn fetch_uncached<F: Fetch + ?Sized>(client: &CratesIo<F>) -> (r: Discovery)
    ensures
        exists|end: Result<Option<Seq<PluginView>>, FetchErrorView>| #[trigger]
            client.may_gather("clove-plugin"@, end) && r.deep_view() == discovery_of(end),
{
    let answer = client.reverse_dependents("clove-plugin");
    let ghost end = dependents_view(answer);
    assert(client.may_gather("clove-plugin"@, end));
    match answer {
        Ok(found) => Discovery::Available(found),
        Err(e) => Discovery::Failed(e.to_string()),
    }
}

/// What is known without asking the registry.
pub open spec fn remembered(refresh: bool, cached: Option<Option<Seq<PluginView>>>) -> Option<
    DiscoveryView,
> {
    if refresh {
        None
    } else {
        match cached {
            Some(p) => Some(DiscoveryView::Available(p)),
            None => None,
        }
    }
}

/// Consults the cache, unless a refresh is asked for: `cached` is what the cache still
/// holds, and `None` means that the registry itself must be asked.
pub fn from_cache(refresh: bool, cached: Option<Option<Vec<RegistryPlugin>>>) -> (r: Option<Discovery>)
    ensures
        r.deep_view() == remembered(refresh, cached.deep_view()),
{
    if refresh {
        return None;
    }
    match cached {
        Some(p) => Some(Discovery::Available(p)),
        None => None,
    }
}

// ---- Installed and available --------------------------------------------------

/// Does the crate build a binary that clove could dispatch to?
pub open spec fn dispatches(c: PluginView, exe_suffix: Seq<char>) -> bool {
    exists|i: int|
        0 <= i < c.bin_names.len() && subcommand(#[trigger] c.bin_names[i], exe_suffix) is Some
}

/// Does this crate build a binary clove could dispatch to? Only a `clove-` binary can be
/// resolved, so a crate that ships another one could never be run as `clove <x>`.
pub fn is_dispatchable(candidate: &RegistryPlugin, exe_suffix: &str) -> (r: bool)
    ensures
        r == dispatches(candidate.deep_view(), exe_suffix@),
{
    let ghost bins = candidate.deep_view().bin_names;
    let mut i: usize = 0;
    while i < candidate.bin_names.len()
        invariant
            i <= candidate.bin_names.len(),
            bins == candidate.bin_names.deep_view(),
            bins == candidate.deep_view().bin_names,
            forall|j: int| 0 <= j < i ==> subcommand(#[trigger] bins[j], exe_suffix@) is None,
        decreases candidate.bin_names.len() - i,
    {
        if bare_subcommand_with(candidate.bin_names[i].as_str(), exe_suffix).is_some() {
            assert(subcommand(bins[i as int], exe_suffix@) is Some);
            return true;
        }
        i += 1;
    }
    false
}

/// The first of the installed plugins that is called `name`.
pub open spec fn called(installed: Seq<EnrichedView>, name: Seq<char>) -> Option<EnrichedView>
    decreases installed.len(),
{
    if installed.len() == 0 {
        None
    } else if installed[0].info.name == name {
        Some(installed[0])
    } else {
        called(installed.drop_first(), name)
    }
}

/// The installed plugin that one of the binaries is: that of the first binary that is
/// installed. Only a `clove-` binary can be.
pub open spec fn matched(
    bins: Seq<Seq<char>>,
    installed: Seq<EnrichedView>,
    exe_suffix: Seq<char>,
) -> Option<EnrichedView>
    decreases bins.len(),
{
    if bins.len() == 0 {
        None
    } else {
        match subcommand(bins[0], exe_suffix) {
            Some(bare) => match called(installed, bare) {
                Some(p) => Some(p),
                None => matched(bins.drop_first(), installed, exe_suffix),
            },
            None => matched(bins.drop_first(), installed, exe_suffix),
        }
    }
}

fn find_called<'a>(installed: &'a Vec<EnrichedPlugin>, name: &str) -> (r: Option<&'a EnrichedPlugin>)
    ensures
        view_of(r) == called(installed.deep_view(), name@),
{
    let ghost all = installed.deep_view();
    let mut i: usize = 0;
    assert(all.skip(0) =~= all);
    while i < installed.len()
        invariant
            i <= installed.len(),
            all == installed.deep_view(),
            called(all, name@) == called(all.skip(i as int), name@),
        decreases installed.len() - i,
    {
        assert(all.skip(i as int)[0] == installed@[i as int].deep_view());
        assert(all.skip(i as int).drop_first() =~= all.skip(i + 1));
        if text::same(installed[i].info.name.as_str(), name) {
            return Some(&installed[i]);
        }
        i += 1;
    }
    None
}

/// The view of an optional plugin.
pub open spec fn view_of(r: Option<&EnrichedPlugin>) -> Option<EnrichedView> {
    match r {
        Some(p) => Some(p.deep_view()),
        None => None,
    }
}

/// The installed plugin corresponding to `candidate`, if any. crates.io records the
/// binaries' names without the platform's suffix, so they are compared by subcommand.
pub fn installed_match<'a>(
    candidate: &RegistryPlugin,
    installed: &'a Vec<EnrichedPlugin>,
    exe_suffix: &str,
) -> (r: Option<&'a EnrichedPlugin>)
    ensures
        view_of(r) == matched(
            candidate.deep_view().bin_names,
            installed.deep_view(),
            exe_suffix@,
        ),
{
    let ghost bins = candidate.deep_view().bin_names;
    let ghost all = installed.deep_view();
    let mut i: usize = 0;
    assert(bins.skip(0) =~= bins);
    while i < candidate.bin_names.len()
        invariant
            i <= candidate.bin_names.len(),
            bins == candidate.bin_names.deep_view(),
            all == installed.deep_view(),
            matched(bins, all, exe_suffix@) == matched(bins.skip(i as int), all, exe_suffix@),
        decreases candidate.bin_names.len() - i,
    {
        assert(bins.skip(i as int)[0] == candidate.bin_names@[i as int]@);
        assert(bins.skip(i as int).drop_first() =~= bins.skip(i + 1));
        if let Some(bare) = bare_subcommand_with(candidate.bin_names[i].as_str(), exe_suffix) {
            if let Some(p) = find_called(installed, bare) {
                return Some(p);
            }
        }
        i += 1;
    }
    None
}

/// Is a published crate installed here?
pub open spec fn is_here(
    c: PluginView,
    installed: Seq<EnrichedView>,
    exe_suffix: Seq<char>,
) -> bool {
    matched(c.bin_names, installed, exe_suffix) is Some
}

pub fn is_installed(
    candidate: &RegistryPlugin,
    installed: &Vec<EnrichedPlugin>,
    exe_suffix: &str,
) -> (r: bool)
    ensures
        r == is_here(candidate.deep_view(), installed.deep_view(), exe_suffix@),
{
    installed_match(candidate, installed, exe_suffix).is_some()
}

/// The discovered plugins that can be dispatched to and are not installed.
pub open spec fn offered(
    discovered: Seq<PluginView>,
    installed: Seq<EnrichedView>,
    exe_suffix: Seq<char>,
) -> Seq<PluginView>
    decreases discovered.len(),
{
    if discovered.len() == 0 {
        Seq::empty()
    } else {
        let rest = offered(discovered.drop_last(), installed, exe_suffix);
        let c = discovered.last();
        if dispatches(c, exe_suffix) && !is_here(c, installed, exe_suffix) {
            rest.push(c)
        } else {
            rest
        }
    }
}

/// The discovered plugins that are not already installed here.
pub fn not_installed(
    discovered: &Vec<RegistryPlugin>,
    installed: &Vec<EnrichedPlugin>,
    exe_suffix: &str,
) -> (r: Vec<RegistryPlugin>)
    ensures
        r.deep_view() == offered(discovered.deep_view(), installed.deep_view(), exe_suffix@),
{
    let ghost all = discovered.deep_view();
    let ghost here = installed.deep_view();
    let mut out: Vec<RegistryPlugin> = Vec::new();
    let mut i: usize = 0;
    assert(out.deep_view() =~= offered(all.take(0), here, exe_suffix@));
    while i < discovered.len()
        invariant
            i <= discovered.len(),
            all == discovered.deep_view(),
            here == installed.deep_view(),
            out.deep_view() == offered(all.take(i as int), here, exe_suffix@),
        decreases discovered.len() - i,
    {
        let ghost prev = out.deep_view();
        assert(all.take(i + 1).drop_last() =~= all.take(i as int));
        assert(all[i as int] == discovered@[i as int].deep_view());
        if is_dispatchable(&discovered[i], exe_suffix) && !is_installed(
            &discovered[i],
            installed,
            exe_suffix,
        ) {
            out.push(discovered[i].clone());
            assert(out.deep_view() =~= prev.push(all[i as int]));
        }
        i += 1;
    }
    assert(all.take(i as int) =~= all);
    out
}

/// What is offered can be run as a clove subcommand and is not installed yet.
pub proof fn law_offers_are_new_and_can_be_run(
    discovered: Seq<PluginView>,
    installed: Seq<EnrichedView>,
    exe_suffix: Seq<char>,
    i: int,
)
    requires
        0 <= i < offered(discovered, installed, exe_suffix).len(),
    ensures
        dispatches(offered(discovered, installed, exe_suffix)[i], exe_suffix),
        !is_here(offered(discovered, installed, exe_suffix)[i], installed, exe_suffix),
        discovered.contains(offered(discovered, installed, exe_suffix)[i]),
    decreases discovered.len(),
{
    let init = discovered.drop_last();
    let rest = offered(init, installed, exe_suffix);
    if i < rest.len() {
        law_offers_are_new_and_can_be_run(init, installed, exe_suffix, i);
        let k = choose|k: int| 0 <= k < init.len() && init[k] == rest[i];
        assert(discovered[k] == rest[i]);
    } else {
        assert(discovered[discovered.len() - 1] == discovered.last());
    }
}

/// The first discovered crate that `p` was installed from.
pub open spec fn origin(
    p: EnrichedView,
    discovered: Seq<PluginView>,
    exe_suffix: Seq<char>,
) -> Option<PluginView>
    decreases discovered.len(),
{
    if discovered.len() == 0 {
        None
    } else if is_here(discovered[0], seq![p], exe_suffix) {
        Some(discovered[0])
    } else {
        origin(p, discovered.drop_first(), exe_suffix)
    }
}

/// The version that an installed plugin could be updated to: the newest stable one, if
/// it is strictly greater than what the plugin says it is.
pub open spec fn newer_release(
    p: EnrichedView,
    discovered: Seq<PluginView>,
    exe_suffix: Seq<char>,
) -> Option<Seq<char>> {
    match (p.probed, origin(p, discovered, exe_suffix)) {
        (Some(probe), Some(c)) => match c.latest {
            Some(latest) => if is_semver(probe.version) && semver_greater(latest, probe.version) {
                Some(latest)
            } else {
                None
            },
            None => None,
        },
        _ => None,
    }
}

fn find_origin<'a>(
    plugin: &EnrichedPlugin,
    discovered: &'a Vec<RegistryPlugin>,
    exe_suffix: &str,
) -> (r: Option<&'a RegistryPlugin>)
    ensures
        match r {
            Some(c) => origin(plugin.deep_view(), discovered.deep_view(), exe_suffix@) == Some(
                c.deep_view(),
            ),
            None => origin(plugin.deep_view(), discovered.deep_view(), exe_suffix@) is None,
        },
{
    let one: Vec<EnrichedPlugin> = vec![copy_enriched(plugin)];
    let ghost p = plugin.deep_view();
    let ghost all = discovered.deep_view();
    assert(one.deep_view() =~= seq![p]);
    let mut i: usize = 0;
    assert(all.skip(0) =~= all);
    while i < discovered.len()
        invariant
            i <= discovered.len(),
            all == discovered.deep_view(),
            p == plugin.deep_view(),
            one.deep_view() == seq![p],
            origin(p, all, exe_suffix@) == origin(p, all.skip(i as int), exe_suffix@),
        decreases discovered.len() - i,
    {
        assert(all.skip(i as int)[0] == discovered@[i as int].deep_view());
        assert(all.skip(i as int).drop_first() =~= all.skip(i + 1));
        if is_installed(&discovered[i], &one, exe_suffix) {
            return Some(&discovered[i]);
        }
        i += 1;
    }
    None
}

fn copy_enriched(p: &EnrichedPlugin) -> (r: EnrichedPlugin)
    ensures
        r.deep_view() == p.deep_view(),
{
    EnrichedPlugin {
        info: p.info.clone(),
        probed: match &p.probed {
            Some(i) => Some(i.clone()),
            None => None,
        },
        status: p.status,
        commands: crate::registry::copy_strings(&p.commands),
    }
}

/// The newest published version of an installed plugin, when discovery saw it and it is
/// greater than what is installed. Only a strictly greater stable release is an update.
pub fn latest_for(
    plugin: &EnrichedPlugin,
    discovered: &Vec<RegistryPlugin>,
    exe_suffix: &str,
) -> (r: Option<String>)
    ensures
        r.deep_view() == newer_release(plugin.deep_view(), discovered.deep_view(), exe_suffix@),
{
    let probed = match &plugin.probed {
        Some(p) => p,
        None => return None,
    };
    let candidate = match find_origin(plugin, discovered, exe_suffix) {
        Some(c) => c,
        None => return None,
    };
    let latest = match &candidate.latest {
        Some(v) => v,
        None => return None,
    };
    let current = match Version::parse(probed.version.as_str()) {
        Some(v) => v,
        None => return None,
    };
    if latest.newer_than(&current) {
        Some(latest.as_str().to_owned())
    } else {
        None
    }
}

// ---- Searching ----------------------------------------------------------------

/// Does a crate answer a query: by its name or its description, in any case?
pub open spec fn answers(c: PluginView, needle: Seq<char>) -> bool {
    text::occurs(text::lowercase(c.crate_name), needle) || (c.description matches Some(d)
        && text::occurs(text::lowercase(d), needle))
}

/// The discovered plugins that can be dispatched to and answer the query.
pub open spec fn hits(
    discovered: Seq<PluginView>,
    needle: Seq<char>,
    exe_suffix: Seq<char>,
) -> Seq<PluginView>
    decreases discovered.len(),
{
    if discovered.len() == 0 {
        Seq::empty()
    } else {
        let rest = hits(discovered.drop_last(), needle, exe_suffix);
        let c = discovered.last();
        if dispatches(c, exe_suffix) && answers(c, needle) {
            rest.push(c)
        } else {
            rest
        }
    }
}

/// The discovered plugins that match a query.
pub fn search(discovered: &Vec<RegistryPlugin>, query: &str, exe_suffix: &str) -> (r: Vec<
    RegistryPlugin,
>)
    ensures
        r.deep_view() == hits(discovered.deep_view(), text::lowercase(query@), exe_suffix@),
{
    let needle = text::to_lowercase(query);
    let ghost all = discovered.deep_view();
    let mut out: Vec<RegistryPlugin> = Vec::new();
    let mut i: usize = 0;
    assert(out.deep_view() =~= hits(all.take(0), needle@, exe_suffix@));
    while i < discovered.len()
        invariant
            i <= discovered.len(),
            all == discovered.deep_view(),
            out.deep_view() == hits(all.take(i as int), needle@, exe_suffix@),
        decreases discovered.len() - i,
    {
        let ghost prev = out.deep_view();
        assert(all.take(i + 1).drop_last() =~= all.take(i as int));
        assert(all[i as int] == discovered@[i as int].deep_view());
        let c = &discovered[i];
        let name = text::to_lowercase(c.crate_name.as_str());
        let in_name = text::contains(name.as_str(), needle.as_str());
        let in_about = match &c.description {
            Some(d) => {
                let about = text::to_lowercase(d.as_str());
                text::contains(about.as_str(), needle.as_str())
            },
            None => false,
        };
        if is_dispatchable(c, exe_suffix) && (in_name || in_about) {
            out.push(c.clone());
            assert(out.deep_view() =~= prev.push(all[i as int]));
        }
        i += 1;
    }
    assert(all.take(i as int) =~= all);
    out
}

/// The crates that were found and can be dispatched to, of the answers to some probes.
pub open spec fn dispatched_hits(
    answers: Seq<Option<PluginView>>,
    exe_suffix: Seq<char>,
) -> Seq<PluginView>
    decreases answers.len(),
{
    if answers.len() == 0 {
        Seq::empty()
    } else {
        let init = dispatched_hits(answers.drop_last(), exe_suffix);
        match answers.last() {
            Some(p) => if dispatches(p, exe_suffix) {
                init.push(p)
            } else {
                init
            },
            None => init,
        }
    }
}

/// Can probing for a query that is a crate name come to this?
pub open spec fn may_probe<F: Fetch + ?Sized>(
    client: &CratesIo<F>,
    query: Seq<char>,
    exe_suffix: Seq<char>,
    end: Result<Seq<PluginView>, ErrorView>,
) -> bool {
    let names = candidates(query);
    ||| exists|answers: Seq<Option<PluginView>>| #[trigger]
        client.answered(names, answers) && answers.len() == names.len() && end == Ok::<
            Seq<PluginView>,
            ErrorView,
        >(dispatched_hits(answers, exe_suffix))
    ||| exists|answers: Seq<Option<PluginView>>, e: FetchErrorView| #[trigger]
        client.stopped(names, answers, e) && end == Err::<Seq<PluginView>, ErrorView>(
            ErrorView::Registry { message: e.message() },
        )
}

/// Resolves a query to published crates by constructing the candidate names and probing
/// each. A query that is no crate name cannot be probed and has no hits; a transport
/// failure aborts, so that a flaky network is never reported as "no such plugin". Every
/// hit can be dispatched to.
pub fn probe_by_name<F: Fetch + ?Sized>(
    client: &CratesIo<F>,
    query: &str,
    exe_suffix: &str,
) -> (r: Result<Vec<RegistryPlugin>, CloveError>)
    ensures
        if is_crate_name(query@) {
            may_probe(client, query@, exe_suffix@, crate::error::outcome(r))
        } else {
            r matches Ok(found) && found.len() == 0
        },
{
    let mut found: Vec<RegistryPlugin> = Vec::new();
    proof {
        law_accepted_names_are_the_legal_ones(query@);
    }
    if validate_crate_name(query).is_err() {
        return Ok(found);
    }
    let names = candidate_crate_names(query);
    let ghost asked = names.deep_view();
    let ghost mut answers: Seq<Option<PluginView>> = Seq::empty();
    let mut i: usize = 0;
    assert(found.deep_view() =~= dispatched_hits(answers, exe_suffix@));
    while i < names.len()
        invariant
            i <= names.len(),
            asked == names.deep_view(),
            asked == candidates(query@),
            is_crate_name(query@),
            answers.len() == i,
            client.answered(asked, answers),
            found.deep_view() == dispatched_hits(answers, exe_suffix@),
        decreases names.len() - i,
    {
        assert(asked[i as int] == names@[i as int]@);
        let ghost before = answers;
        let ghost prev = found.deep_view();
        match client.crate_exists(names[i].as_str()) {
            Ok(Some(p)) => {
                proof {
                    answers = answers.push(Some(p.deep_view()));
                    assert(answers.drop_last() =~= before);
                }
                if is_dispatchable(&p, exe_suffix) {
                    found.push(p);
                    assert(found.deep_view() =~= prev.push(p.deep_view()));
                }
            },
            Ok(None) => {
                proof {
                    answers = answers.push(None);
                    assert(answers.drop_last() =~= before);
                }
            },
            Err(e) => {
                assert(client.stopped(asked, answers, e.deep_view()));
                return Err(e.into_error());
            },
        }
        i += 1;
    }
    Ok(found)
}

/// What a search shows: the matches, and the warning.
pub open spec fn search_result(
    found: Seq<PluginView>,
    absent: bool,
    warning: Option<Seq<char>>,
    probe: Result<Seq<PluginView>, Seq<char>>,
) -> (Seq<PluginView>, Option<Seq<char>>) {
    if found.len() > 0 {
        (found, warning)
    } else {
        match probe {
            Ok(named) => if named.len() > 0 {
                (
                    named,
                    if absent {
                        None
                    } else {
                        warning
                    },
                )
            } else {
                (found, warning)
            },
            Err(e) => (
                found,
                if warning is Some {
                    warning
                } else {
                    Some(e)
                },
            ),
        }
    }
}

/// Puts together what a search shows. `found` are the matches in the discovered set. If
/// there are none, `probe` is what came of asking for the candidate names: what that
/// finds is shown, and answers the warning if it was that the registry is absent (as
/// `absent` tells) — but not a discovery that failed, for then everything else is still
/// missing. A probe that failed is reported if nothing else is.
pub fn conclude_search(
    found: Vec<RegistryPlugin>,
    absent: bool,
    warning: Option<String>,
    probe: Result<Vec<RegistryPlugin>, String>,
) -> (r: (Vec<RegistryPlugin>, Option<String>))
    ensures
        (r.0.deep_view(), r.1.deep_view()) == search_result(
            found.deep_view(),
            absent,
            warning.deep_view(),
            match probe {
                Ok(v) => Ok(v.deep_view()),
                Err(e) => Err(e@),
            },
        ),
{
    assert(found.deep_view().len() == found.len());
    if found.len() > 0 {
        return (found, warning);
    }
    match probe {
        Ok(named) => {
            assert(named.deep_view().len() == named.len());
            if named.len() > 0 {
                (
                    named,
                    if absent {
                        None
                    } else {
                        warning
                    },
                )
            } else {
                (found, warning)
            }
        },
        Err(e) => (
            found,
            match warning {
                Some(w) => Some(w),
                None => Some(e),
            },
        ),
    }
}

// ---- JSON ---------------------------------------------------------------------

/// A warning as a list of at most one.
pub open spec fn at_most_one(warning: Option<Seq<char>>) -> Seq<Seq<char>> {
    match warning {
        Some(w) => seq![w],
        None => Seq::empty(),
    }
}

/// The `_meta` object: counts, and the discovery warning where there is one.
pub open spec fn meta_of(installed: int, available: int, warning: Option<Seq<char>>) -> JsonView {
    obj(
        seq![
            ("count"@, num(installed + available)),
            ("installed_count"@, num(installed)),
            ("available_count"@, num(available)),
            ("warnings"@, texts(at_most_one(warning))),
        ],
    )
}

/// The `_meta` object of a list.
pub fn meta(installed: usize, available: usize, warning: Option<&str>) -> (r: Json)
    requires
        installed + available <= usize::MAX,
    ensures
        r.shape() == meta_of(installed as int, available as int, text::opt_view(warning)),
{
    let mut warnings: Vec<String> = Vec::new();
    if let Some(w) = warning {
        warnings.push(w.to_owned());
    }
    assert(warnings.deep_view() =~= at_most_one(text::opt_view(warning)));
    let v: Vec<(String, Json)> = vec![
        ("count".to_owned(), number((installed + available) as u64)),
        ("installed_count".to_owned(), number(installed as u64)),
        ("available_count".to_owned(), number(available as u64)),
        ("warnings".to_owned(), strings(&warnings)),
    ];
    assert(pairs(v@) =~= seq![
        ("count"@, num(installed + available)),
        ("installed_count"@, num(installed as int)),
        ("available_count"@, num(available as int)),
        ("warnings"@, texts(warnings.deep_view())),
    ]);
    object(v)
}

/// The entries of an installed plugin's object.
pub open spec fn installed_entries(p: EnrichedView) -> Seq<(Seq<char>, JsonView)> {
    seq![
        ("name"@, JsonView::Text(p.info.name)),
        ("binary"@, JsonView::Text("clove-"@ + p.info.name)),
        ("path"@, JsonView::Text(p.info.path)),
        (
            "version"@,
            text_or_null(
                match p.probed {
                    Some(i) => Some(i.version),
                    None => None,
                },
            ),
        ),
        (
            "about"@,
            text_or_null(
                match p.probed {
                    Some(i) => Some(i.about),
                    None => None,
                },
            ),
        ),
        (
            "provides"@,
            texts(
                match p.probed {
                    Some(i) => i.provides,
                    None => Seq::empty(),
                },
            ),
        ),
        ("commands"@, texts(p.commands)),
        ("installed"@, JsonView::Bool(true)),
        ("status"@, JsonView::Text(p.status.word())),
    ]
}

/// The object of an installed plugin, with the version it could be updated to where
/// there is one.
pub open spec fn installed_object(p: EnrichedView, latest: Option<Seq<char>>) -> JsonView {
    obj(
        installed_entries(p) + (match latest {
            Some(v) => seq![("latest_version"@, JsonView::Text(v))],
            None => Seq::empty(),
        }),
    )
}

/// The JSON object for one installed plugin.
#[verifier::rlimit(30)]
pub fn installed_json_with_latest(plugin: &EnrichedPlugin, latest: Option<&str>) -> (r: Json)
    ensures
        r.shape() == installed_object(plugin.deep_view(), text::opt_view(latest)),
{
    let (version, about, provides): (Json, Json, Json) = match &plugin.probed {
        Some(p) => (
            string(p.version.as_str()),
            string(p.about.as_str()),
            strings(&p.provides),
        ),
        None => {
            let none: Vec<String> = Vec::new();
            assert(none.deep_view() =~= Seq::<Seq<char>>::empty());
            (Json::Null, Json::Null, strings(&none))
        },
    };
    let mut v: Vec<(String, Json)> = vec![
        ("name".to_owned(), string(plugin.info.name.as_str())),
        ("binary".to_owned(), Json::Text(text::cat2("clove-", plugin.info.name.as_str()))),
        ("path".to_owned(), string(plugin.info.path.as_str())),
        ("version".to_owned(), version),
        ("about".to_owned(), about),
        ("provides".to_owned(), provides),
        ("commands".to_owned(), strings(&plugin.commands)),
        ("installed".to_owned(), Json::Bool(true)),
        ("status".to_owned(), string(plugin.status.as_str())),
    ];
    assert(pairs(v@) =~= installed_entries(plugin.deep_view()));
    if let Some(l) = latest {
        v.push(("latest_version".to_owned(), string(l)));
        assert(pairs(v@) =~= installed_entries(plugin.deep_view()) + seq![
            ("latest_version"@, JsonView::Text(l@)),
        ]);
    } else {
        assert(pairs(v@) =~= installed_entries(plugin.deep_view()) + Seq::<
            (Seq<char>, JsonView),
        >::empty());
    }
    object(v)
}

/// The subcommands that a crate's binaries dispatch as.
pub open spec fn bare_names(bins: Seq<Seq<char>>, exe_suffix: Seq<char>) -> Seq<Seq<char>>
    decreases bins.len(),
{
    if bins.len() == 0 {
        Seq::empty()
    } else {
        match subcommand(bins.last(), exe_suffix) {
            Some(bare) => bare_names(bins.drop_last(), exe_suffix).push(bare),
            None => bare_names(bins.drop_last(), exe_suffix),
        }
    }
}

fn subcommands(bins: &Vec<String>, exe_suffix: &str) -> (r: Vec<String>)
    ensures
        r.deep_view() == bare_names(bins.deep_view(), exe_suffix@),
{
    let ghost all = bins.deep_view();
    let mut out: Vec<String> = Vec::new();
    let mut i: usize = 0;
    assert(out.deep_view() =~= bare_names(all.take(0), exe_suffix@));
    while i < bins.len()
        invariant
            i <= bins.len(),
            all == bins.deep_view(),
            out.deep_view() == bare_names(all.take(i as int), exe_suffix@),
        decreases bins.len() - i,
    {
        let ghost prev = out.deep_view();
        assert(all.take(i + 1).drop_last() =~= all.take(i as int));
        if let Some(bare) = bare_subcommand_with(bins[i].as_str(), exe_suffix) {
            out.push(bare.to_owned());
            assert(out.deep_view() =~= prev.push(bare@));
        }
        i += 1;
    }
    assert(all.take(i as int) =~= all);
    out
}

/// The command lines that a crate's subcommands are reached by.
pub open spec fn commands_of(bare: Seq<Seq<char>>) -> Seq<Seq<char>> {
    Seq::new(bare.len(), |i: int| crate::plugin::name_command(bare[i]))
}

fn commands(bare: &Vec<String>) -> (r: Vec<String>)
    ensures
        r.deep_view() == commands_of(bare.deep_view()),
{
    let ghost all = bare.deep_view();
    let none: Vec<String> = Vec::new();
    assert(none.deep_view() =~= Seq::<Seq<char>>::empty());
    let mut out: Vec<String> = Vec::new();
    let mut i: usize = 0;
    while i < bare.len()
        invariant
            i <= bare.len(),
            all == bare.deep_view(),
            none.deep_view() == Seq::<Seq<char>>::empty(),
            out.len() == i,
            forall|j: int|
                0 <= j < i ==> (#[trigger] out@[j])@ == crate::plugin::name_command(all[j]),
        decreases bare.len() - i,
    {
        let mut one = run_as(&none, bare[i].as_str());
        assert(one.deep_view() == reached_as(Seq::empty(), all[i as int]));
        assert(one.deep_view().len() == 1);
        assert(one.deep_view()[0] == one@[0]@);
        let line = one.remove(0);
        out.push(line);
        i += 1;
    }
    assert(out.deep_view() =~= commands_of(all));
    out
}

/// The name that a discovered plugin is listed by: its first subcommand, or else the
/// crate's name without `clove-`.
pub open spec fn listed_name(c: PluginView, exe_suffix: Seq<char>) -> Seq<char> {
    let bare = bare_names(c.bin_names, exe_suffix);
    if bare.len() > 0 {
        bare[0]
    } else {
        match text::behind(c.crate_name, "clove-"@) {
            Some(rest) => rest,
            None => c.crate_name,
        }
    }
}

/// The entries of a discovered plugin's object. Every identifier is taken from the
/// binaries that can be dispatched to, so `name`, `binary` and `commands` agree. It has
/// no compatibility verdict yet: its status is `available`.
pub open spec fn available_entries(c: PluginView, exe_suffix: Seq<char>) -> Seq<
    (Seq<char>, JsonView),
> {
    let bare = bare_names(c.bin_names, exe_suffix);
    seq![
        ("name"@, JsonView::Text(listed_name(c, exe_suffix))),
        (
            "binary"@,
            if bare.len() > 0 {
                JsonView::Text("clove-"@ + bare[0])
            } else {
                JsonView::Null
            },
        ),
        ("path"@, JsonView::Null),
        ("version"@, JsonView::Null),
        ("latest_version"@, text_or_null(c.shown_version())),
        ("about"@, text_or_null(c.description)),
        ("provides"@, texts(Seq::empty())),
        ("commands"@, texts(commands_of(bare))),
        ("crate"@, JsonView::Text(c.crate_name)),
        ("repository"@, text_or_null(c.repository)),
        ("published_by"@, text_or_null(c.published_by)),
        ("downloads"@, num(c.downloads as int)),
        ("yanked"@, JsonView::Bool(c.is_yanked())),
        ("installed"@, JsonView::Bool(false)),
        ("status"@, JsonView::Text("available"@)),
    ]
}

#[verifier::rlimit(50)]
fn available_pairs(plugin: &RegistryPlugin, exe_suffix: &str) -> (r: Vec<(String, Json)>)
    ensures
        pairs(r@) == available_entries(plugin.deep_view(), exe_suffix@),
{
    let bare = subcommands(&plugin.bin_names, exe_suffix);
    let ghost names = bare.deep_view();
    assert(names.len() == bare.len());
    let name: String = if bare.len() > 0 {
        assert(names[0] == bare@[0]@);
        bare[0].clone()
    } else {
        match text::strip_prefix(plugin.crate_name.as_str(), "clove-") {
            Some(rest) => rest.to_owned(),
            None => plugin.crate_name.clone(),
        }
    };
    let binary: Json = if bare.len() > 0 {
        Json::Text(text::cat2("clove-", bare[0].as_str()))
    } else {
        Json::Null
    };
    let none: Vec<String> = Vec::new();
    assert(none.deep_view() =~= Seq::<Seq<char>>::empty());
    let lines = commands(&bare);
    let shown = plugin.display_version();
    let v: Vec<(String, Json)> = vec![
        ("name".to_owned(), Json::Text(name)),
        ("binary".to_owned(), binary),
        ("path".to_owned(), Json::Null),
        ("version".to_owned(), Json::Null),
        ("latest_version".to_owned(), string_or_null(borrowed(&shown))),
        ("about".to_owned(), string_or_null(borrowed(&plugin.description))),
        ("provides".to_owned(), strings(&none)),
        ("commands".to_owned(), strings(&lines)),
        ("crate".to_owned(), string(plugin.crate_name.as_str())),
        ("repository".to_owned(), string_or_null(borrowed(&plugin.repository))),
        ("published_by".to_owned(), string_or_null(borrowed(&plugin.published_by))),
        ("downloads".to_owned(), number(plugin.downloads)),
        ("yanked".to_owned(), Json::Bool(plugin.fully_yanked())),
        ("installed".to_owned(), Json::Bool(false)),
        ("status".to_owned(), string("available")),
    ];
    assert(pairs(v@) =~= available_entries(plugin.deep_view(), exe_suffix@));
    v
}

/// The JSON object for a plugin that was discovered and is not installed.
pub fn available_json(plugin: &RegistryPlugin, exe_suffix: &str) -> (r: Json)
    ensures
        r.shape() == obj(available_entries(plugin.deep_view(), exe_suffix@)),
{
    object(available_pairs(plugin, exe_suffix))
}

// ---- Tables -------------------------------------------------------------------

/// The width of a column: that of its widest cell or of its header, in bytes.
pub open spec fn widest(header: Seq<char>, cells: Seq<Seq<char>>) -> int
    decreases cells.len(),
{
    if cells.len() == 0 {
        text::byte_len(header) as int
    } else {
        let w = widest(header, cells.drop_last());
        if text::byte_len(cells.last()) > w {
            text::byte_len(cells.last()) as int
        } else {
            w
        }
    }
}

/// The column width: the wider of the header and the widest cell.
pub fn header_width(header: &str, cells: &Vec<String>) -> (r: usize)
    ensures
        r == widest(header@, cells.deep_view()),
{
    let ghost all = cells.deep_view();
    let mut w: usize = text::bytes_of(header);
    let mut i: usize = 0;
    assert(w == widest(header@, all.take(0)));
    while i < cells.len()
        invariant
            i <= cells.len(),
            all == cells.deep_view(),
            w == widest(header@, all.take(i as int)),
        decreases cells.len() - i,
    {
        assert(all.take(i + 1).drop_last() =~= all.take(i as int));
        assert(all[i as int] == cells@[i as int]@);
        let n = text::bytes_of(cells[i].as_str());
        if n > w {
            w = n;
        }
        i += 1;
    }
    assert(all.take(i as int) =~= all);
    w
}

/// What a plugin's version column shows.
pub open spec fn version_cell(p: EnrichedView) -> Seq<char> {
    match p.probed {
        Some(i) => i.version,
        None => "—"@,
    }
}

/// What a plugin's last column shows: what it says of itself, whether it understands
/// this clove, and the update there is.
pub open spec fn about_cell(p: EnrichedView, latest: Option<Seq<char>>) -> Seq<char> {
    (match p.probed {
        Some(i) => i.about,
        None => "(no metadata)"@,
    }) + (match p.status {
        PluginStatus::Outdated => "  [built for an older clove]"@,
        PluginStatus::NeedsNewerClove => "  [declares it needs a newer clove]"@,
        _ => Seq::empty(),
    }) + (match latest {
        Some(v) => "  [update available: "@ + v + "]"@,
        None => Seq::empty(),
    })
}

/// A line of the table of installed plugins.
pub open spec fn installed_line(
    pad: Seq<char>,
    w: (int, int, int),
    name: Seq<char>,
    version: Seq<char>,
    run_as: Seq<char>,
    about: Seq<char>,
) -> Seq<char> {
    pad + text::padded(name, w.0) + "  "@ + text::padded(version, w.1) + "  "@ + text::padded(
        run_as,
        w.2,
    ) + "  "@ + about
}

/// The names of the plugins.
pub open spec fn name_cells(ps: Seq<EnrichedView>) -> Seq<Seq<char>> {
    Seq::new(ps.len(), |i: int| ps[i].info.name)
}

/// The versions of the plugins.
pub open spec fn version_cells(ps: Seq<EnrichedView>) -> Seq<Seq<char>> {
    Seq::new(ps.len(), |i: int| version_cell(ps[i]))
}

/// The command lines of the plugins.
pub open spec fn command_cells(ps: Seq<EnrichedView>) -> Seq<Seq<char>> {
    Seq::new(ps.len(), |i: int| text::joined(ps[i].commands, ", "@))
}

/// The `NAME / VERSION / RUN AS / ABOUT` table of the installed plugins.
pub open spec fn installed_table(
    ps: Seq<EnrichedView>,
    discovered: Seq<PluginView>,
    indent: bool,
    exe_suffix: Seq<char>,
) -> Seq<OutView> {
    let pad = if indent {
        "  "@
    } else {
        ""@
    };
    let w = (
        widest("NAME"@, name_cells(ps)),
        widest("VERSION"@, version_cells(ps)),
        widest("RUN AS"@, command_cells(ps)),
    );
    seq![
        OutView::Text(installed_line(pad, w, "NAME"@, "VERSION"@, "RUN AS"@, "ABOUT"@)),
    ] + Seq::new(
        ps.len(),
        |i: int|
            OutView::Text(
                installed_line(
                    pad,
                    w,
                    ps[i].info.name,
                    version_cell(ps[i]),
                    text::joined(ps[i].commands, ", "@),
                    about_cell(ps[i], newer_release(ps[i], discovered, exe_suffix)),
                ),
            ),
    )
}

fn installed_line_of(
    pad: &str,
    w: (usize, usize, usize),
    name: &str,
    version: &str,
    run_as: &str,
    about: &str,
) -> (r: String)
    ensures
        r@ == installed_line(
            pad@,
            (w.0 as int, w.1 as int, w.2 as int),
            name@,
            version@,
            run_as@,
            about@,
        ),
{
    let a = text::pad_right(name, w.0);
    let b = text::pad_right(version, w.1);
    let c = text::pad_right(run_as, w.2);
    text::cat8(pad, a.as_str(), "  ", b.as_str(), "  ", c.as_str(), "  ", about)
}

fn about_of(p: &EnrichedPlugin, latest: Option<&str>) -> (r: String)
    ensures
        r@ == about_cell(p.deep_view(), text::opt_view(latest)),
{
    let mut about: String = match &p.probed {
        Some(i) => i.about.clone(),
        None => "(no metadata)".to_owned(),
    };
    let ghost first = about@;
    match p.status {
        PluginStatus::Outdated => {
            about.append("  [built for an older clove]");
        },
        PluginStatus::NeedsNewerClove => {
            about.append("  [declares it needs a newer clove]");
        },
        _ => {
            assert(first + Seq::<char>::empty() =~= first);
        },
    }
    let ghost second = about@;
    match latest {
        Some(v) => {
            let tag = text::cat3("  [update available: ", v, "]");
            about.append(tag.as_str());
        },
        None => {
            assert(second + Seq::<char>::empty() =~= second);
        },
    }
    about
}

fn version_of(p: &EnrichedPlugin) -> (r: String)
    ensures
        r@ == version_cell(p.deep_view()),
{
    match &p.probed {
        Some(i) => i.version.clone(),
        None => "—".to_owned(),
    }
}

/// Renders the table of the installed plugins. A plugin that did not answer shows `—`
/// for its version and `(no metadata)`; one out of range gets a note.
pub fn render_installed_table(
    plugins: &Vec<EnrichedPlugin>,
    discovered: &Vec<RegistryPlugin>,
    indent: bool,
    exe_suffix: &str,
) -> (r: Vec<Out>)
    ensures
        r.deep_view() == installed_table(
            plugins.deep_view(),
            discovered.deep_view(),
            indent,
            exe_suffix@,
        ),
{
    let ghost ps = plugins.deep_view();
    let ghost found = discovered.deep_view();
    let mut names: Vec<String> = Vec::new();
    let mut versions: Vec<String> = Vec::new();
    let mut runs: Vec<String> = Vec::new();
    let mut i: usize = 0;
    while i < plugins.len()
        invariant
            i <= plugins.len(),
            ps == plugins.deep_view(),
            names.len() == i,
            versions.len() == i,
            runs.len() == i,
            forall|j: int| 0 <= j < i ==> (#[trigger] names@[j])@ == ps[j].info.name,
            forall|j: int| 0 <= j < i ==> (#[trigger] versions@[j])@ == version_cell(ps[j]),
            forall|j: int|
                0 <= j < i ==> (#[trigger] runs@[j])@ == text::joined(ps[j].commands, ", "@),
        decreases plugins.len() - i,
    {
        let p = &plugins[i];
        assert(ps[i as int] == p.deep_view());
        names.push(p.info.name.clone());
        versions.push(version_of(p));
        runs.push(text::join(&p.commands, ", "));
        i += 1;
    }
    assert(names.deep_view() =~= name_cells(ps));
    assert(versions.deep_view() =~= version_cells(ps));
    assert(runs.deep_view() =~= command_cells(ps));
    let w: (usize, usize, usize) = (
        header_width("NAME", &names),
        header_width("VERSION", &versions),
        header_width("RUN AS", &runs),
    );
    let ghost gw = (w.0 as int, w.1 as int, w.2 as int);
    let pad = if indent {
        "  "
    } else {
        ""
    };
    let mut out: Vec<Out> = vec![
        Out::Text(installed_line_of(pad, w, "NAME", "VERSION", "RUN AS", "ABOUT")),
    ];
    let ghost want = installed_table(ps, found, indent, exe_suffix@);
    assert(out@[0].deep_view() == want[0]);
    i = 0;
    while i < plugins.len()
        invariant
            i <= plugins.len(),
            ps == plugins.deep_view(),
            found == discovered.deep_view(),
            names.len() == ps.len(),
            versions.len() == ps.len(),
            runs.len() == ps.len(),
            names.deep_view() == name_cells(ps),
            versions.deep_view() == version_cells(ps),
            runs.deep_view() == command_cells(ps),
            gw == (w.0 as int, w.1 as int, w.2 as int),
            gw == (
                widest("NAME"@, name_cells(ps)),
                widest("VERSION"@, version_cells(ps)),
                widest("RUN AS"@, command_cells(ps)),
            ),
            pad@ == (if indent {
                "  "@
            } else {
                ""@
            }),
            want == installed_table(ps, found, indent, exe_suffix@),
            out.len() == i + 1,
            forall|j: int| 0 <= j <= i ==> (#[trigger] out@[j]).deep_view() == want[j],
        decreases plugins.len() - i,
    {
        let p = &plugins[i];
        assert(ps[i as int] == p.deep_view());
        assert(name_cells(ps)[i as int] == names@[i as int]@);
        assert(version_cells(ps)[i as int] == versions@[i as int]@);
        assert(command_cells(ps)[i as int] == runs@[i as int]@);
        let latest = latest_for(p, discovered, exe_suffix);
        let about = about_of(p, borrowed(&latest));
        let line = installed_line_of(
            pad,
            w,
            names[i].as_str(),
            versions[i].as_str(),
            runs[i].as_str(),
            about.as_str(),
        );
        assert(want[i + 1] == OutView::Text(line@));
        out.push(Out::Text(line));
        i += 1;
    }
    assert(out.deep_view() =~= want);
    out
}

/// What a published plugin's last column shows.
pub open spec fn published_cell(
    c: PluginView,
    installed: Seq<EnrichedView>,
    exe_suffix: Seq<char>,
) -> Seq<char> {
    (match c.description {
        Some(d) => d,
        None => "—"@,
    }) + (if c.is_yanked() {
        "  [all versions yanked]"@
    } else {
        Seq::empty()
    }) + (if is_here(c, installed, exe_suffix) {
        "  [installed]"@
    } else {
        Seq::empty()
    })
}

/// What a published plugin's version column shows.
pub open spec fn release_cell(c: PluginView) -> Seq<char> {
    match c.shown_version() {
        Some(v) => v,
        None => "—"@,
    }
}

/// A line of the table of published plugins.
pub open spec fn available_line(
    w: (int, int),
    name: Seq<char>,
    version: Seq<char>,
    about: Seq<char>,
) -> Seq<char> {
    "  "@ + text::padded(name, w.0) + "  "@ + text::padded(version, w.1) + "  "@ + about
}

/// The names of the crates.
pub open spec fn crate_cells(cs: Seq<PluginView>) -> Seq<Seq<char>> {
    Seq::new(cs.len(), |i: int| cs[i].crate_name)
}

/// The versions of the crates.
pub open spec fn release_cells(cs: Seq<PluginView>) -> Seq<Seq<char>> {
    Seq::new(cs.len(), |i: int| release_cell(cs[i]))
}

/// The `CRATE / VERSION / ABOUT` table of published plugins.
pub open spec fn available_table(
    cs: Seq<PluginView>,
    installed: Seq<EnrichedView>,
    exe_suffix: Seq<char>,
) -> Seq<OutView> {
    let w = (widest("CRATE"@, crate_cells(cs)), widest("VERSION"@, release_cells(cs)));
    seq![OutView::Text(available_line(w, "CRATE"@, "VERSION"@, "ABOUT"@))] + Seq::new(
        cs.len(),
        |i: int|
            OutView::Text(
                available_line(
                    w,
                    cs[i].crate_name,
                    release_cell(cs[i]),
                    published_cell(cs[i], installed, exe_suffix),
                ),
            ),
    )
}

fn available_line_of(w: (usize, usize), name: &str, version: &str, about: &str) -> (r: String)
    ensures
        r@ == available_line((w.0 as int, w.1 as int), name@, version@, about@),
{
    let a = text::pad_right(name, w.0);
    let b = text::pad_right(version, w.1);
    text::cat6("  ", a.as_str(), "  ", b.as_str(), "  ", about)
}

fn release_of(c: &RegistryPlugin) -> (r: String)
    ensures
        r@ == release_cell(c.deep_view()),
{
    match c.display_version() {
        Some(v) => v,
        None => "—".to_owned(),
    }
}

fn published_of(c: &RegistryPlugin, installed: &Vec<EnrichedPlugin>, exe_suffix: &str) -> (r: String)
    ensures
        r@ == published_cell(c.deep_view(), installed.deep_view(), exe_suffix@),
{
    let mut about: String = match &c.description {
        Some(d) => d.clone(),
        None => "—".to_owned(),
    };
    let ghost first = about@;
    if c.fully_yanked() {
        about.append("  [all versions yanked]");
    } else {
        assert(first + Seq::<char>::empty() =~= first);
    }
    let ghost second = about@;
    if is_installed(c, installed, exe_suffix) {
        about.append("  [installed]");
    } else {
        assert(second + Seq::<char>::empty() =~= second);
    }
    about
}

/// Renders the table of published plugins.
pub fn render_available_table(
    plugins: &Vec<RegistryPlugin>,
    installed: &Vec<EnrichedPlugin>,
    exe_suffix: &str,
) -> (r: Vec<Out>)
    ensures
        r.deep_view() == available_table(
            plugins.deep_view(),
            installed.deep_view(),
            exe_suffix@,
        ),
{
    let ghost cs = plugins.deep_view();
    let ghost here = installed.deep_view();
    let mut names: Vec<String> = Vec::new();
    let mut versions: Vec<String> = Vec::new();
    let mut i: usize = 0;
    while i < plugins.len()
        invariant
            i <= plugins.len(),
            cs == plugins.deep_view(),
            names.len() == i,
            versions.len() == i,
            forall|j: int| 0 <= j < i ==> (#[trigger] names@[j])@ == cs[j].crate_name,
            forall|j: int| 0 <= j < i ==> (#[trigger] versions@[j])@ == release_cell(cs[j]),
        decreases plugins.len() - i,
    {
        assert(cs[i as int] == plugins@[i as int].deep_view());
        names.push(plugins[i].crate_name.clone());
        versions.push(release_of(&plugins[i]));
        i += 1;
    }
    assert(names.deep_view() =~= crate_cells(cs));
    assert(versions.deep_view() =~= release_cells(cs));
    let w: (usize, usize) = (header_width("CRATE", &names), header_width("VERSION", &versions));
    let mut out: Vec<Out> = vec![Out::Text(available_line_of(w, "CRATE", "VERSION", "ABOUT"))];
    let ghost want = available_table(cs, here, exe_suffix@);
    assert(out@[0].deep_view() == want[0]);
    i = 0;
    while i < plugins.len()
        invariant
            i <= plugins.len(),
            cs == plugins.deep_view(),
            here == installed.deep_view(),
            names.len() == cs.len(),
            versions.len() == cs.len(),
            names.deep_view() == crate_cells(cs),
            versions.deep_view() == release_cells(cs),
            (w.0 as int, w.1 as int) == (
                widest("CRATE"@, crate_cells(cs)),
                widest("VERSION"@, release_cells(cs)),
            ),
            want == available_table(cs, here, exe_suffix@),
            out.len() == i + 1,
            forall|j: int| 0 <= j <= i ==> (#[trigger] out@[j]).deep_view() == want[j],
        decreases plugins.len() - i,
    {
        let c = &plugins[i];
        assert(cs[i as int] == c.deep_view());
        assert(crate_cells(cs)[i as int] == names@[i as int]@);
        assert(release_cells(cs)[i as int] == versions@[i as int]@);
        let about = published_of(c, installed, exe_suffix);
        let line = available_line_of(w, names[i].as_str(), versions[i].as_str(), about.as_str());
        assert(want[i + 1] == OutView::Text(line@));
        out.push(Out::Text(line));
        i += 1;
    }
    assert(out.deep_view() =~= want);
    out
}

// ---- Output -------------------------------------------------------------------

/// A warning on stderr, where there is one.
pub open spec fn warned_note(warning: Option<Seq<char>>) -> Seq<OutView> {
    match warning {
        Some(w) => seq![OutView::Note("warning: "@ + w)],
        None => Seq::empty(),
    }
}

fn note_of(warning: Option<&str>) -> (r: Vec<Out>)
    ensures
        r.deep_view() == warned_note(text::opt_view(warning)),
{
    let mut out: Vec<Out> = Vec::new();
    if let Some(w) = warning {
        out.push(Out::Note(text::cat2("warning: ", w)));
    }
    assert(out.deep_view() =~= warned_note(text::opt_view(warning)));
    out
}

/// Puts one list of lines behind another.
pub fn push_lines(out: &mut Vec<Out>, more: Vec<Out>)
    ensures
        final(out).deep_view() == old(out).deep_view() + more.deep_view(),
{
    let ghost start = out.deep_view();
    let ghost all = more.deep_view();
    let ghost first = out@;
    let ghost second = more@;
    let mut rest = more;
    out.append(&mut rest);
    assert(out@ =~= first + second);
    assert(out.deep_view() =~= start + all);
}

/// The list for people. Only the bare list stays silent on an empty machine: once the
/// registry was consulted there are sections to label.
pub open spec fn human_list(
    installed: Seq<EnrichedView>,
    available: Seq<PluginView>,
    discovered: Seq<PluginView>,
    warning: Option<Seq<char>>,
    consulted: bool,
    exe_suffix: Seq<char>,
) -> Seq<OutView> {
    warned_note(warning) + (if installed.len() == 0 && !consulted {
        Seq::empty()
    } else {
        (if consulted {
            seq![OutView::Text("Installed"@)]
        } else {
            Seq::empty()
        }) + (if installed.len() == 0 {
            seq![OutView::Text("  (none)"@)]
        } else {
            installed_table(installed, discovered, consulted, exe_suffix)
        }) + (if available.len() > 0 {
            seq![OutView::Text(""@), OutView::Text("Available"@)] + available_table(
                available,
                installed,
                exe_suffix,
            )
        } else {
            Seq::empty()
        })
    })
}

fn render_human(
    installed: &Vec<EnrichedPlugin>,
    available: &Vec<RegistryPlugin>,
    discovered: &Vec<RegistryPlugin>,
    warning: Option<&str>,
    consulted: bool,
    exe_suffix: &str,
) -> (r: Vec<Out>)
    ensures
        r.deep_view() == human_list(
            installed.deep_view(),
            available.deep_view(),
            discovered.deep_view(),
            text::opt_view(warning),
            consulted,
            exe_suffix@,
        ),
{
    let mut out = note_of(warning);
    let ghost head = out.deep_view();
    assert(installed.deep_view().len() == installed.len());
    assert(available.deep_view().len() == available.len());
    if installed.len() == 0 && !consulted {
        assert(head + Seq::<OutView>::empty() =~= head);
        return out;
    }
    let mut body: Vec<Out> = Vec::new();
    if consulted {
        body.push(Out::Text("Installed".to_owned()));
    }
    let ghost title = body.deep_view();
    assert(title =~= if consulted {
        seq![OutView::Text("Installed"@)]
    } else {
        Seq::empty()
    });
    if installed.len() == 0 {
        let none: Vec<Out> = vec![Out::Text("  (none)".to_owned())];
        assert(none.deep_view() =~= seq![OutView::Text("  (none)"@)]);
        push_lines(&mut body, none);
    } else {
        push_lines(
            &mut body,
            render_installed_table(installed, discovered, consulted, exe_suffix),
        );
    }
    let ghost two = body.deep_view();
    if available.len() > 0 {
        let mut offers: Vec<Out> = vec![
            Out::Text("".to_owned()),
            Out::Text("Available".to_owned()),
        ];
        assert(offers.deep_view() =~= seq![OutView::Text(""@), OutView::Text("Available"@)]);
        push_lines(&mut offers, render_available_table(available, installed, exe_suffix));
        push_lines(&mut body, offers);
    } else {
        assert(two + Seq::<OutView>::empty() =~= two);
    }
    push_lines(&mut out, body);
    out
}

/// The rows of a list: the installed plugins, each with its update, then the available
/// ones.
pub open spec fn rows(
    installed: Seq<EnrichedView>,
    available: Seq<PluginView>,
    discovered: Seq<PluginView>,
    exe_suffix: Seq<char>,
) -> Seq<JsonView> {
    Seq::new(
        installed.len(),
        |i: int|
            installed_object(installed[i], newer_release(installed[i], discovered, exe_suffix)),
    ) + Seq::new(available.len(), |i: int| obj(available_entries(available[i], exe_suffix)))
}

fn rows_of(
    installed: &Vec<EnrichedPlugin>,
    available: &Vec<RegistryPlugin>,
    discovered: &Vec<RegistryPlugin>,
    exe_suffix: &str,
) -> (r: Vec<Json>)
    ensures
        r.deep_view() == rows(
            installed.deep_view(),
            available.deep_view(),
            discovered.deep_view(),
            exe_suffix@,
        ),
{
    let ghost ps = installed.deep_view();
    let ghost cs = available.deep_view();
    let ghost found = discovered.deep_view();
    let ghost want = rows(ps, cs, found, exe_suffix@);
    let mut out: Vec<Json> = Vec::new();
    let mut i: usize = 0;
    while i < installed.len()
        invariant
            i <= installed.len(),
            ps == installed.deep_view(),
            found == discovered.deep_view(),
            want == rows(ps, cs, found, exe_suffix@),
            out.len() == i,
            forall|j: int| 0 <= j < i ==> (#[trigger] out@[j]).shape() == want[j],
        decreases installed.len() - i,
    {
        assert(ps[i as int] == installed@[i as int].deep_view());
        let latest = latest_for(&installed[i], discovered, exe_suffix);
        let row = installed_json_with_latest(&installed[i], borrowed(&latest));
        assert(want[i as int] == row.shape());
        out.push(row);
        i += 1;
    }
    i = 0;
    while i < available.len()
        invariant
            i <= available.len(),
            cs == available.deep_view(),
            want == rows(ps, cs, found, exe_suffix@),
            out.len() == ps.len() + i,
            forall|j: int| 0 <= j < ps.len() + i ==> (#[trigger] out@[j]).shape() == want[j],
        decreases available.len() - i,
    {
        assert(cs[i as int] == available@[i as int].deep_view());
        let row = available_json(&available[i], exe_suffix);
        assert(want[ps.len() + i] == row.shape());
        out.push(row);
        i += 1;
    }
    assert(out.deep_view() =~= want);
    out
}

/// What a list prints. A `jsonl` line is an item and nothing else, so a warning goes to
/// stderr there.
pub open spec fn list_output(
    format: OutputFormat,
    installed: Seq<EnrichedView>,
    available: Seq<PluginView>,
    discovered: Seq<PluginView>,
    warning: Option<Seq<char>>,
    consulted: bool,
    exe_suffix: Seq<char>,
) -> Seq<OutView> {
    match format {
        OutputFormat::Human => human_list(
            installed,
            available,
            discovered,
            warning,
            consulted,
            exe_suffix,
        ),
        OutputFormat::Json => seq![
            OutView::Json(
                success(
                    JsonView::Array(rows(installed, available, discovered, exe_suffix)),
                    meta_of(installed.len() as int, available.len() as int, warning),
                ),
            ),
        ],
        OutputFormat::Jsonl => warned_note(warning) + item_lines(
            rows(installed, available, discovered, exe_suffix),
        ),
    }
}

/// Renders the list of plugins. `discovered` is everything discovery returned, with the
/// plugins that are installed — which `available` leaves out.
pub fn render(
    format: OutputFormat,
    installed: &Vec<EnrichedPlugin>,
    available: &Vec<RegistryPlugin>,
    discovered: &Vec<RegistryPlugin>,
    warning: Option<&str>,
    consulted: bool,
    exe_suffix: &str,
) -> (r: Vec<Out>)
    requires
        installed.len() + available.len() <= usize::MAX,
    ensures
        r.deep_view() == list_output(
            format,
            installed.deep_view(),
            available.deep_view(),
            discovered.deep_view(),
            text::opt_view(warning),
            consulted,
            exe_suffix@,
        ),
{
    match format {
        OutputFormat::Human => render_human(
            installed,
            available,
            discovered,
            warning,
            consulted,
            exe_suffix,
        ),
        OutputFormat::Json => {
            let items = rows_of(installed, available, discovered, exe_suffix);
            proof {
                crate::json::lemma_array_shape(items);
            }
            let m = meta(installed.len(), available.len(), warning);
            let out: Vec<Out> = vec![Out::Json(success_envelope(Json::Array(items), m))];
            assert(out.deep_view() =~= list_output(
                format,
                installed.deep_view(),
                available.deep_view(),
                discovered.deep_view(),
                text::opt_view(warning),
                consulted,
                exe_suffix@,
            ));
            out
        },
        OutputFormat::Jsonl => {
            let items = rows_of(installed, available, discovered, exe_suffix);
            let mut out = note_of(warning);
            push_lines(&mut out, jsonl_lines(&items));
            out
        },
    }
}

/// What `plugin list` prints without the registry: the installed plugins alone.
pub fn run_list_local(format: OutputFormat, installed: &Vec<EnrichedPlugin>, exe_suffix: &str) -> (r:
    Vec<Out>)
    ensures
        r.deep_view() == list_output(
            format,
            installed.deep_view(),
            Seq::empty(),
            Seq::empty(),
            None,
            false,
            exe_suffix@,
        ),
{
    let none: Vec<RegistryPlugin> = Vec::new();
    assert(none.deep_view() =~= Seq::<PluginView>::empty());
    render(format, installed, &none, &none, None, false, exe_suffix)
}

/// Does `plugin list` consult the registry? `--refresh` only means something there, so
/// it implies `--all`.
pub fn consults_registry(args: &crate::cli::PluginListArgs) -> (r: bool)
    ensures
        r == (args.all || args.refresh),
{
    args.all || args.refresh
}

/// What `plugin list --all` prints, given what discovery came to.
pub fn run_list(
    format: OutputFormat,
    installed: &Vec<EnrichedPlugin>,
    discovery: &Discovery,
    refresh: bool,
    exe_suffix: &str,
) -> (r: Vec<Out>)
    requires
        installed.len() + discovery.deep_view().found().len() <= usize::MAX,
    ensures
        r.deep_view() == list_output(
            format,
            installed.deep_view(),
            offered(discovery.deep_view().found(), installed.deep_view(), exe_suffix@),
            discovery.deep_view().found(),
            discovery.deep_view().warned(refresh),
            true,
            exe_suffix@,
        ),
{
    let discovered = discovery.plugins();
    let available = not_installed(&discovered, installed, exe_suffix);
    proof {
        lemma_offers_are_few(discovered.deep_view(), installed.deep_view(), exe_suffix@);
        assert(available.deep_view().len() == available.len());
    }
    let warning = discovery.warning(refresh);
    render(format, installed, &available, &discovered, borrowed(&warning), true, exe_suffix)
}

proof fn lemma_offers_are_few(
    discovered: Seq<PluginView>,
    installed: Seq<EnrichedView>,
    exe_suffix: Seq<char>,
)
    ensures
        offered(discovered, installed, exe_suffix).len() <= discovered.len(),
    decreases discovered.len(),
{
    if discovered.len() > 0 {
        lemma_offers_are_few(discovered.drop_last(), installed, exe_suffix);
    }
}

/// The row of a match of a search. One that is installed carries the real verdict, path
/// and version of the installed plugin.
pub open spec fn match_entries(
    c: PluginView,
    installed: Seq<EnrichedView>,
    exe_suffix: Seq<char>,
) -> Seq<(Seq<char>, JsonView)> {
    available_entries(c, exe_suffix) + (match matched(c.bin_names, installed, exe_suffix) {
        Some(p) => seq![
            ("installed"@, JsonView::Bool(true)),
            ("status"@, JsonView::Text(p.status.word())),
            ("path"@, JsonView::Text(p.info.path)),
            (
                "version"@,
                text_or_null(
                    match p.probed {
                        Some(i) => Some(i.version),
                        None => None,
                    },
                ),
            ),
        ],
        None => Seq::empty(),
    })
}

fn match_row(c: &RegistryPlugin, installed: &Vec<EnrichedPlugin>, exe_suffix: &str) -> (r: Json)
    ensures
        r.shape() == obj(match_entries(c.deep_view(), installed.deep_view(), exe_suffix@)),
{
    let mut v = available_pairs(c, exe_suffix);
    let ghost first = pairs(v@);
    let ghost want = match_entries(c.deep_view(), installed.deep_view(), exe_suffix@);
    match installed_match(c, installed, exe_suffix) {
        Some(p) => {
            let version: Json = match &p.probed {
                Some(i) => string(i.version.as_str()),
                None => Json::Null,
            };
            v.push(("installed".to_owned(), Json::Bool(true)));
            v.push(("status".to_owned(), string(p.status.as_str())));
            v.push(("path".to_owned(), string(p.info.path.as_str())));
            v.push(("version".to_owned(), version));
            assert(pairs(v@) =~= want);
        },
        None => {
            assert(pairs(v@) =~= want);
        },
    }
    object(v)
}

/// How many of the crates are installed.
pub open spec fn count_here(
    cs: Seq<PluginView>,
    installed: Seq<EnrichedView>,
    exe_suffix: Seq<char>,
) -> int
    decreases cs.len(),
{
    if cs.len() == 0 {
        0
    } else {
        count_here(cs.drop_last(), installed, exe_suffix) + (if is_here(
            cs.last(),
            installed,
            exe_suffix,
        ) {
            1int
        } else {
            0
        })
    }
}

/// What a search prints. When a warning says that the registry could not be reached,
/// "nothing matched" was not checked and is not claimed.
pub open spec fn search_output(
    format: OutputFormat,
    cs: Seq<PluginView>,
    installed: Seq<EnrichedView>,
    warning: Option<Seq<char>>,
    exe_suffix: Seq<char>,
) -> Seq<OutView> {
    let items = Seq::new(cs.len(), |i: int| obj(match_entries(cs[i], installed, exe_suffix)));
    match format {
        OutputFormat::Human => warned_note(warning) + (if cs.len() == 0 {
            if warning is Some {
                seq![OutView::Text("could not check crates.io — no results"@)]
            } else {
                seq![OutView::Text("no published plugins matched"@)]
            }
        } else {
            available_table(cs, installed, exe_suffix)
        }),
        OutputFormat::Json => seq![
            OutView::Json(
                success(
                    JsonView::Array(items),
                    meta_of(
                        count_here(cs, installed, exe_suffix),
                        cs.len() - count_here(cs, installed, exe_suffix),
                        warning,
                    ),
                ),
            ),
        ],
        OutputFormat::Jsonl => warned_note(warning) + item_lines(items),
    }
}

/// Renders the matches of a search.
pub fn render_search(
    format: OutputFormat,
    matches: &Vec<RegistryPlugin>,
    installed: &Vec<EnrichedPlugin>,
    warning: Option<&str>,
    exe_suffix: &str,
) -> (r: Vec<Out>)
    ensures
        r.deep_view() == search_output(
            format,
            matches.deep_view(),
            installed.deep_view(),
            text::opt_view(warning),
            exe_suffix@,
        ),
{
    let ghost cs = matches.deep_view();
    let ghost here = installed.deep_view();
    let ghost want = Seq::new(cs.len(), |i: int| obj(match_entries(cs[i], here, exe_suffix@)));
    let mut items: Vec<Json> = Vec::new();
    let mut found: usize = 0;
    let mut i: usize = 0;
    assert(count_here(cs.take(0), here, exe_suffix@) == 0);
    while i < matches.len()
        invariant
            i <= matches.len(),
            cs == matches.deep_view(),
            here == installed.deep_view(),
            want == Seq::new(cs.len(), |i: int| obj(match_entries(cs[i], here, exe_suffix@))),
            found <= i,
            found == count_here(cs.take(i as int), here, exe_suffix@),
            items.len() == i,
            forall|j: int| 0 <= j < i ==> (#[trigger] items@[j]).shape() == want[j],
        decreases matches.len() - i,
    {
        assert(cs.take(i + 1).drop_last() =~= cs.take(i as int));
        assert(cs[i as int] == matches@[i as int].deep_view());
        let row = match_row(&matches[i], installed, exe_suffix);
        assert(want[i as int] == row.shape());
        items.push(row);
        if is_installed(&matches[i], installed, exe_suffix) {
            found += 1;
        }
        i += 1;
    }
    assert(cs.take(i as int) =~= cs);
    assert(items.deep_view() =~= want);
    match format {
        OutputFormat::Human => {
            let mut out = note_of(warning);
            if matches.len() == 0 {
                let line = if warning.is_some() {
                    "could not check crates.io — no results"
                } else {
                    "no published plugins matched"
                };
                let only: Vec<Out> = vec![Out::Text(line.to_owned())];
                assert(only.deep_view() =~= seq![OutView::Text(line@)]);
                push_lines(&mut out, only);
            } else {
                push_lines(&mut out, render_available_table(matches, installed, exe_suffix));
            }
            out
        },
        OutputFormat::Json => {
            proof {
                crate::json::lemma_array_shape(items);
            }
            let m = meta(found, matches.len() - found, warning);
            let out: Vec<Out> = vec![Out::Json(success_envelope(Json::Array(items), m))];
            assert(out.deep_view() =~= search_output(
                format,
                cs,
                here,
                text::opt_view(warning),
                exe_suffix@,
            ));
            out
        },
        OutputFormat::Jsonl => {
            let mut out = note_of(warning);
            push_lines(&mut out, jsonl_lines(&items));
            out
        },
    }
}

/// In a JSON format a list and a search put nothing but JSON on stdout, whatever the
/// warning is.
pub proof fn law_lists_keep_stdout_json(
    format: OutputFormat,
    installed: Seq<EnrichedView>,
    cs: Seq<PluginView>,
    discovered: Seq<PluginView>,
    warning: Option<Seq<char>>,
    exe_suffix: Seq<char>,
    i: int,
)
    requires
        format != OutputFormat::Human,
    ensures
        0 <= i < list_output(format, installed, cs, discovered, warning, true, exe_suffix).len()
            ==> !(list_output(format, installed, cs, discovered, warning, true, exe_suffix)[i] is Text),
        0 <= i < search_output(format, cs, installed, warning, exe_suffix).len() ==> !(search_output(
            format,
            cs,
            installed,
            warning,
            exe_suffix,
        )[i] is Text),
{
}

// ---- What is found, offered and shown -------------------------------------------

/// What the registry answered is what was found; where it has no answer, or could not be
/// reached, nothing was found and it is said why.
pub proof fn law_a_discovery_is_what_the_registry_answered(
    found: Seq<PluginView>,
    e: FetchErrorView,
    fresh: bool,
)
    ensures
        discovery_of(Ok(Some(found))).found() == found,
        discovery_of(Ok(Some(found))).warned(fresh) is None,
        discovery_of(Ok(None)).found().len() == 0,
        discovery_of(Ok(None)).warned(fresh) is Some,
        discovery_of(Err(e)).found().len() == 0,
        discovery_of(Err(e)).warned(fresh) == Some(e.message()),
{
}

/// The plugin called by a name is the first installed one that has it.
pub proof fn law_the_first_plugin_of_a_name_is_called(
    installed: Seq<EnrichedView>,
    name: Seq<char>,
    k: int,
)
    ensures
        called(installed, name) matches Some(p) ==> p.info.name == name && installed.contains(p),
        0 <= k < installed.len() && installed[k].info.name == name && (forall|j: int|
            0 <= j < k ==> (#[trigger] installed[j]).info.name != name) ==> called(installed, name)
            == Some(installed[k]),
        (forall|j: int| 0 <= j < installed.len() ==> (#[trigger] installed[j]).info.name != name)
            ==> called(installed, name) is None,
    decreases installed.len(),
{
    if installed.len() > 0 {
        let rest = installed.drop_first();
        law_the_first_plugin_of_a_name_is_called(rest, name, k - 1);
        assert forall|j: int| 0 <= j < rest.len() implies #[trigger] rest[j] == installed[j + 1] by {
        }
        if called(rest, name) is Some {
            let p = called(rest, name)->0;
            let j = choose|j: int| 0 <= j < rest.len() && rest[j] == p;
            assert(installed[j + 1] == p);
        }
        assert(installed[0] == installed[0]);
        if k > 0 && (forall|j: int| 0 <= j < k ==> (#[trigger] installed[j]).info.name != name) {
            assert(installed[0].info.name != name);
            assert(k - 1 < rest.len() ==> rest[k - 1] == installed[k]);
        }
    }
}

/// A crate is installed exactly when one of its binaries is called as an installed plugin is;
/// the plugin that it is matched with is one of these.
pub proof fn law_a_crate_is_matched_by_its_binaries(
    bins: Seq<Seq<char>>,
    installed: Seq<EnrichedView>,
    exe_suffix: Seq<char>,
)
    ensures
        matched(bins, installed, exe_suffix) matches Some(p) ==> installed.contains(p) && exists|
            i: int,
        |
            0 <= i < bins.len() && subcommand(#[trigger] bins[i], exe_suffix) == Some(p.info.name),
        matched(bins, installed, exe_suffix) is None ==> forall|i: int, j: int|
            0 <= i < bins.len() && 0 <= j < installed.len() ==> subcommand(
                #[trigger] bins[i],
                exe_suffix,
            ) != Some((#[trigger] installed[j]).info.name),
    decreases bins.len(),
{
    if bins.len() > 0 {
        let rest = bins.drop_first();
        law_a_crate_is_matched_by_its_binaries(rest, installed, exe_suffix);
        assert forall|i: int| 0 <= i < rest.len() implies #[trigger] rest[i] == bins[i + 1] by {
        }
        if let Some(bare) = subcommand(bins[0], exe_suffix) {
            law_the_first_plugin_of_a_name_is_called(installed, bare, 0);
            lemma_called_when_there(installed, bare);
        }
        if matched(bins, installed, exe_suffix) is None {
            assert forall|i: int, j: int| 0 <= i < bins.len() && 0 <= j < installed.len() implies
                subcommand(#[trigger] bins[i], exe_suffix) != Some(
                (#[trigger] installed[j]).info.name,
            ) by {
                if i > 0 {
                    assert(rest[i - 1] == bins[i]);
                }
            }
        } else if matched(rest, installed, exe_suffix) is Some {
            let p = matched(rest, installed, exe_suffix)->0;
            let i = choose|i: int|
                0 <= i < rest.len() && subcommand(#[trigger] rest[i], exe_suffix) == Some(
                    p.info.name,
                );
            assert(bins[i + 1] == rest[i]);
        }
    }
}

proof fn lemma_called_when_there(installed: Seq<EnrichedView>, name: Seq<char>)
    ensures
        called(installed, name) is None ==> forall|j: int|
            0 <= j < installed.len() ==> (#[trigger] installed[j]).info.name != name,
    decreases installed.len(),
{
    if installed.len() > 0 {
        let rest = installed.drop_first();
        lemma_called_when_there(rest, name);
        if called(installed, name) is None {
            assert forall|j: int| 0 <= j < installed.len() implies (#[trigger]
            installed[j]).info.name != name by {
                if j > 0 {
                    assert(rest[j - 1] == installed[j]);
                }
            }
        }
    }
}

/// What is offered is what was discovered, can be run and is not installed: all of it, in order.
pub proof fn law_everything_new_that_can_be_run_is_offered(items: Seq<PluginView>, installed: Seq<EnrichedView>, exe_suffix: Seq<char>, x: PluginView)
    ensures
        offered(items, installed, exe_suffix).contains(x) <==> items.contains(x) && (dispatches(x, exe_suffix) && !is_here(x, installed, exe_suffix)),
        offered(items.push(x), installed, exe_suffix) == (if (dispatches(x, exe_suffix) && !is_here(x, installed, exe_suffix)) {
            offered(items, installed, exe_suffix).push(x)
        } else {
            offered(items, installed, exe_suffix)
        }),
    decreases items.len(),
{
    assert(items.push(x).drop_last() =~= items);
    if items.len() > 0 {
        let init = items.drop_last();
        law_everything_new_that_can_be_run_is_offered(init, installed, exe_suffix, x);
        let rest = offered(init, installed, exe_suffix);
        let all = offered(items, installed, exe_suffix);
        if all.contains(x) {
            let k = choose|k: int| 0 <= k < all.len() && all[k] == x;
            if k < rest.len() {
                assert(rest[k] == x);
                let i = choose|i: int| 0 <= i < init.len() && init[i] == x;
                assert(items[i] == x);
            } else {
                assert(items[items.len() - 1] == x);
            }
        }
        if items.contains(x) && (dispatches(x, exe_suffix) && !is_here(x, installed, exe_suffix)) {
            let i = choose|i: int| 0 <= i < items.len() && items[i] == x;
            if i < init.len() {
                assert(init[i] == x);
                let k = choose|k: int| 0 <= k < rest.len() && rest[k] == x;
                assert(all[k] == x);
            } else {
                assert(all[rest.len() as int] == x);
            }
        }
    }
}

/// A search finds what can be run and answers to the text: all of it, in order.
pub proof fn law_a_search_finds_every_hit(items: Seq<PluginView>, needle: Seq<char>, exe_suffix: Seq<char>, x: PluginView)
    ensures
        hits(items, needle, exe_suffix).contains(x) <==> items.contains(x) && (dispatches(x, exe_suffix) && answers(x, needle)),
        hits(items.push(x), needle, exe_suffix) == (if (dispatches(x, exe_suffix) && answers(x, needle)) {
            hits(items, needle, exe_suffix).push(x)
        } else {
            hits(items, needle, exe_suffix)
        }),
    decreases items.len(),
{
    assert(items.push(x).drop_last() =~= items);
    if items.len() > 0 {
        let init = items.drop_last();
        law_a_search_finds_every_hit(init, needle, exe_suffix, x);
        let rest = hits(init, needle, exe_suffix);
        let all = hits(items, needle, exe_suffix);
        if all.contains(x) {
            let k = choose|k: int| 0 <= k < all.len() && all[k] == x;
            if k < rest.len() {
                assert(rest[k] == x);
                let i = choose|i: int| 0 <= i < init.len() && init[i] == x;
                assert(items[i] == x);
            } else {
                assert(items[items.len() - 1] == x);
            }
        }
        if items.contains(x) && (dispatches(x, exe_suffix) && answers(x, needle)) {
            let i = choose|i: int| 0 <= i < items.len() && items[i] == x;
            if i < init.len() {
                assert(init[i] == x);
                let k = choose|k: int| 0 <= k < rest.len() && rest[k] == x;
                assert(all[k] == x);
            } else {
                assert(all[rest.len() as int] == x);
            }
        }
    }
}

/// A crate answers to a text that stands in its name or in its description, whatever the case
/// of either.
pub proof fn law_a_crate_answers_by_name_or_description(c: PluginView, query: Seq<char>)
    ensures
        text::occurs(text::lowercase(c.crate_name), text::lowercase(query)) ==> answers(
            c,
            text::lowercase(query),
        ),
        c.description matches Some(d) ==> (text::occurs(
            text::lowercase(d),
            text::lowercase(query),
        ) ==> answers(c, text::lowercase(query))),
        answers(c, text::lowercase(query)) ==> text::occurs(
            text::lowercase(c.crate_name),
            text::lowercase(query),
        ) || c.description is Some,
        c.description matches Some(d) ==> (answers(c, text::lowercase(query)) ==> text::occurs(
            text::lowercase(c.crate_name),
            text::lowercase(query),
        ) || text::occurs(text::lowercase(d), text::lowercase(query))),
{
}

/// The hits of a search by name are the answers that there were and can be run, in order.
pub proof fn law_answers_that_can_be_run_are_hits(
    answers: Seq<Option<PluginView>>,
    p: PluginView,
    exe_suffix: Seq<char>,
)
    ensures
        dispatched_hits(Seq::empty(), exe_suffix).len() == 0,
        dispatched_hits(answers.push(None), exe_suffix) == dispatched_hits(answers, exe_suffix),
        dispatches(p, exe_suffix) ==> dispatched_hits(answers.push(Some(p)), exe_suffix)
            == dispatched_hits(answers, exe_suffix).push(p),
        !dispatches(p, exe_suffix) ==> dispatched_hits(answers.push(Some(p)), exe_suffix)
            == dispatched_hits(answers, exe_suffix),
{
    assert(answers.push(None).drop_last() =~= answers);
    assert(answers.push(Some(p)).drop_last() =~= answers);
}

/// A crate that an installed plugin comes from is discovered and provides it; one is found
/// wherever there is one. A newer release is one of that crate, and newer than what is there.
pub proof fn law_a_newer_release_is_of_the_same_crate(
    p: EnrichedView,
    discovered: Seq<PluginView>,
    exe_suffix: Seq<char>,
)
    ensures
        origin(p, discovered, exe_suffix) matches Some(c) ==> discovered.contains(c) && is_here(
            c,
            seq![p],
            exe_suffix,
        ),
        origin(p, discovered, exe_suffix) is None ==> forall|i: int|
            0 <= i < discovered.len() ==> !is_here(#[trigger] discovered[i], seq![p], exe_suffix),
        newer_release(p, discovered, exe_suffix) matches Some(v) ==> (origin(
            p,
            discovered,
            exe_suffix,
        ) matches Some(c) && c.latest == Some(v) && (p.probed matches Some(probe)
            && semver_greater(v, probe.version))),
        p.probed matches Some(probe) ==> (origin(p, discovered, exe_suffix) matches Some(c) ==> (
        c.latest matches Some(v) ==> (is_semver(probe.version) && semver_greater(v, probe.version)
            ==> newer_release(p, discovered, exe_suffix) == Some(v)))),
    decreases discovered.len(),
{
    if discovered.len() > 0 {
        let rest = discovered.drop_first();
        law_a_newer_release_is_of_the_same_crate(p, rest, exe_suffix);
        if is_here(discovered[0], seq![p], exe_suffix) {
            assert(discovered.contains(discovered[0]));
        } else if let Some(c) = origin(p, rest, exe_suffix) {
            let i = choose|i: int| 0 <= i < rest.len() && rest[i] == c;
            assert(discovered[i + 1] == c);
        } else {
            assert forall|i: int| 0 <= i < discovered.len() implies !is_here(
                #[trigger] discovered[i],
                seq![p],
                exe_suffix,
            ) by {
                if i > 0 {
                    assert(rest[i - 1] == discovered[i]);
                }
            }
        }
    }
}

/// What a search found stands, with its warning; only where it found nothing does a crate of
/// that name count, and a failure to ask for it is told where there was no warning yet.
pub proof fn law_a_search_that_finds_nothing_asks_by_name(
    found: Seq<PluginView>,
    absent: bool,
    warning: Option<Seq<char>>,
    named: Seq<PluginView>,
    e: Seq<char>,
)
    ensures
        found.len() > 0 ==> search_result(found, absent, warning, Ok(named)) == (found, warning)
            && search_result(found, absent, warning, Err(e)) == (found, warning),
        found.len() == 0 && named.len() > 0 ==> search_result(
            found,
            absent,
            warning,
            Ok(named),
        ).0 == named,
        found.len() == 0 && named.len() > 0 && !absent ==> search_result(
            found,
            absent,
            warning,
            Ok(named),
        ).1 == warning,
        found.len() == 0 && named.len() > 0 && absent ==> search_result(
            found,
            absent,
            warning,
            Ok(named),
        ).1 is None,
        found.len() == 0 && named.len() == 0 ==> search_result(found, absent, warning, Ok(named))
            == (found, warning),
        found.len() == 0 && warning is None ==> search_result(found, absent, warning, Err(e)) == (
            found,
            Some(e),
        ),
        found.len() == 0 && warning is Some ==> search_result(found, absent, warning, Err(e)) == (
            found,
            warning,
        ),
{
}

/// A list says how many plugins it shows, how many of these are installed and how many are
/// not, and its warning.
pub proof fn law_a_list_is_counted(installed: int, available: int, warning: Option<Seq<char>>)
    ensures
        meta_of(installed, available, warning).member("count"@) == Some(num(installed + available)),
        meta_of(installed, available, warning).member("installed_count"@) == Some(num(installed)),
        meta_of(installed, available, warning).member("available_count"@) == Some(num(available)),
        meta_of(installed, available, warning).member("warnings"@) == Some(texts(at_most_one(warning))),
        at_most_one(None).len() == 0,
        warning matches Some(w) ==> at_most_one(warning) == seq![w],
{
    reveal_strlit("count");
    reveal_strlit("installed_count");
    reveal_strlit("available_count");
    reveal_strlit("warnings");
    let p = seq![
        ("count"@, num(installed + available)),
        ("installed_count"@, num(installed)),
        ("available_count"@, num(available)),
        ("warnings"@, texts(at_most_one(warning))),
    ];
    assert(meta_of(installed, available, warning) == obj(p));
    assert(p[0].0 == "count"@ && p[1].0 == "installed_count"@ && p[2].0 == "available_count"@ && p[3].0 == "warnings"@);
    assert("installed_count"@[0] != "available_count"@[0]);
    law_distinct_pairs_are_members(p);
}

/// An installed plugin shows its name, its file, what it says of itself, how it is reached, and
/// whether it fits this clove.
pub proof fn law_an_installed_plugin_shows_what_it_is(p: EnrichedView)
    ensures
        installed_object(p, None).member("name"@) == Some(JsonView::Text(p.info.name)),
        installed_object(p, None).member("binary"@) == Some(JsonView::Text("clove-"@ + p.info.name)),
        installed_object(p, None).member("path"@) == Some(JsonView::Text(p.info.path)),
        installed_object(p, None).member("version"@) == Some(text_or_null(
            match p.probed {
                Some(i) => Some(i.version),
                None => None,
            },
        )),
        installed_object(p, None).member("about"@) == Some(text_or_null(
            match p.probed {
                Some(i) => Some(i.about),
                None => None,
            },
        )),
        installed_object(p, None).member("provides"@) == Some(texts(
            match p.probed {
                Some(i) => i.provides,
                None => Seq::empty(),
            },
        )),
        installed_object(p, None).member("commands"@) == Some(texts(p.commands)),
        installed_object(p, None).member("installed"@) == Some(JsonView::Bool(true)),
        installed_object(p, None).member("status"@) == Some(JsonView::Text(p.status.word())),
{
    assert(installed_entries(p) + Seq::<(Seq<char>, JsonView)>::empty() =~= installed_entries(p));
    reveal_strlit("name");
    reveal_strlit("binary");
    reveal_strlit("path");
    reveal_strlit("version");
    reveal_strlit("about");
    reveal_strlit("provides");
    reveal_strlit("commands");
    reveal_strlit("installed");
    reveal_strlit("status");
    let e = seq![
        ("name"@, JsonView::Text(p.info.name)),
        ("binary"@, JsonView::Text("clove-"@ + p.info.name)),
        ("path"@, JsonView::Text(p.info.path)),
        ("version"@, text_or_null(
            match p.probed {
                Some(i) => Some(i.version),
                None => None,
            },
        )),
        ("about"@, text_or_null(
            match p.probed {
                Some(i) => Some(i.about),
                None => None,
            },
        )),
        ("provides"@, texts(
            match p.probed {
                Some(i) => i.provides,
                None => Seq::empty(),
            },
        )),
        ("commands"@, texts(p.commands)),
        ("installed"@, JsonView::Bool(true)),
        ("status"@, JsonView::Text(p.status.word())),
    ];
    assert(installed_object(p, None) == obj(e));
    assert(e[0].0 == "name"@ && e[1].0 == "binary"@ && e[2].0 == "path"@ && e[3].0 == "version"@ && e[4].0 == "about"@ && e[5].0 == "provides"@ && e[6].0 == "commands"@ && e[7].0 == "installed"@ && e[8].0 == "status"@);
    assert("name"@[0] != "path"@[0]);
    assert("binary"@[0] != "status"@[0]);
    assert("provides"@[0] != "commands"@[0]);
    assert forall|i: int, j: int| 0 <= i < j < e.len() implies (#[trigger] e[i]).0 != (
    #[trigger] e[j]).0 by {
        assert(i == 0 || i == 1 || i == 2 || i == 3 || i == 4 || i == 5 || i == 6 || i == 7);
        assert(j == 1 || j == 2 || j == 3 || j == 4 || j == 5 || j == 6 || j == 7 || j == 8);
    }
    law_distinct_pairs_are_members(e);
}

/// A plugin of which there is a newer release shows that beside everything else.
pub proof fn law_an_outdated_plugin_shows_the_newer_release(p: EnrichedView, v: Seq<char>)
    ensures
        installed_object(p, Some(v)).member("name"@) == Some(JsonView::Text(p.info.name)),
        installed_object(p, Some(v)).member("binary"@) == Some(JsonView::Text("clove-"@ + p.info.name)),
        installed_object(p, Some(v)).member("path"@) == Some(JsonView::Text(p.info.path)),
        installed_object(p, Some(v)).member("version"@) == Some(text_or_null(
            match p.probed {
                Some(i) => Some(i.version),
                None => None,
            },
        )),
        installed_object(p, Some(v)).member("about"@) == Some(text_or_null(
            match p.probed {
                Some(i) => Some(i.about),
                None => None,
            },
        )),
        installed_object(p, Some(v)).member("provides"@) == Some(texts(
            match p.probed {
                Some(i) => i.provides,
                None => Seq::empty(),
            },
        )),
        installed_object(p, Some(v)).member("commands"@) == Some(texts(p.commands)),
        installed_object(p, Some(v)).member("installed"@) == Some(JsonView::Bool(true)),
        installed_object(p, Some(v)).member("status"@) == Some(JsonView::Text(p.status.word())),
        installed_object(p, Some(v)).member("latest_version"@) == Some(JsonView::Text(v)),
{
    reveal_strlit("name");
    reveal_strlit("binary");
    reveal_strlit("path");
    reveal_strlit("version");
    reveal_strlit("about");
    reveal_strlit("provides");
    reveal_strlit("commands");
    reveal_strlit("installed");
    reveal_strlit("status");
    reveal_strlit("latest_version");
    let e = seq![
        ("name"@, JsonView::Text(p.info.name)),
        ("binary"@, JsonView::Text("clove-"@ + p.info.name)),
        ("path"@, JsonView::Text(p.info.path)),
        ("version"@, text_or_null(
            match p.probed {
                Some(i) => Some(i.version),
                None => None,
            },
        )),
        ("about"@, text_or_null(
            match p.probed {
                Some(i) => Some(i.about),
                None => None,
            },
        )),
        ("provides"@, texts(
            match p.probed {
                Some(i) => i.provides,
                None => Seq::empty(),
            },
        )),
        ("commands"@, texts(p.commands)),
        ("installed"@, JsonView::Bool(true)),
        ("status"@, JsonView::Text(p.status.word())),
        ("latest_version"@, JsonView::Text(v)),
    ];
    assert(installed_entries(p) + seq![("latest_version"@, JsonView::Text(v))] =~= e);
    assert(installed_object(p, Some(v)) == obj(e));
    assert(e[0].0 == "name"@ && e[1].0 == "binary"@ && e[2].0 == "path"@ && e[3].0 == "version"@ && e[4].0 == "about"@ && e[5].0 == "provides"@ && e[6].0 == "commands"@ && e[7].0 == "installed"@ && e[8].0 == "status"@ && e[9].0 == "latest_version"@);
    assert("name"@[0] != "path"@[0]);
    assert("binary"@[0] != "status"@[0]);
    assert("provides"@[0] != "commands"@[0]);
    assert forall|i: int, j: int| 0 <= i < j < e.len() implies (#[trigger] e[i]).0 != (
    #[trigger] e[j]).0 by {
        assert(i == 0 || i == 1 || i == 2 || i == 3 || i == 4 || i == 5 || i == 6 || i == 7 || i == 8);
        assert(j == 1 || j == 2 || j == 3 || j == 4 || j == 5 || j == 6 || j == 7 || j == 8 || j == 9);
    }
    law_distinct_pairs_are_members(e);
}

/// A plugin that can be installed shows its crate, its version, its publisher and its source,
/// how it will be reached, and that it is not installed.
pub proof fn law_an_available_plugin_shows_what_it_is(c: PluginView, exe_suffix: Seq<char>)
    ensures
        obj(available_entries(c, exe_suffix)).member("name"@) == Some(JsonView::Text(listed_name(c, exe_suffix))),
        obj(available_entries(c, exe_suffix)).member("binary"@) == Some(if bare_names(c.bin_names, exe_suffix).len() > 0 {
            JsonView::Text("clove-"@ + bare_names(c.bin_names, exe_suffix)[0])
        } else {
            JsonView::Null
        }),
        obj(available_entries(c, exe_suffix)).member("path"@) == Some(JsonView::Null),
        obj(available_entries(c, exe_suffix)).member("version"@) == Some(JsonView::Null),
        obj(available_entries(c, exe_suffix)).member("latest_version"@) == Some(text_or_null(c.shown_version())),
        obj(available_entries(c, exe_suffix)).member("about"@) == Some(text_or_null(c.description)),
        obj(available_entries(c, exe_suffix)).member("provides"@) == Some(texts(Seq::empty())),
        obj(available_entries(c, exe_suffix)).member("commands"@) == Some(texts(commands_of(bare_names(c.bin_names, exe_suffix)))),
        obj(available_entries(c, exe_suffix)).member("crate"@) == Some(JsonView::Text(c.crate_name)),
        obj(available_entries(c, exe_suffix)).member("repository"@) == Some(text_or_null(c.repository)),
        obj(available_entries(c, exe_suffix)).member("published_by"@) == Some(text_or_null(c.published_by)),
        obj(available_entries(c, exe_suffix)).member("downloads"@) == Some(num(c.downloads as int)),
        obj(available_entries(c, exe_suffix)).member("yanked"@) == Some(JsonView::Bool(c.is_yanked())),
        obj(available_entries(c, exe_suffix)).member("installed"@) == Some(JsonView::Bool(false)),
        obj(available_entries(c, exe_suffix)).member("status"@) == Some(JsonView::Text("available"@)),
{
    reveal_strlit("name");
    reveal_strlit("binary");
    reveal_strlit("path");
    reveal_strlit("version");
    reveal_strlit("latest_version");
    reveal_strlit("about");
    reveal_strlit("provides");
    reveal_strlit("commands");
    reveal_strlit("crate");
    reveal_strlit("repository");
    reveal_strlit("published_by");
    reveal_strlit("downloads");
    reveal_strlit("yanked");
    reveal_strlit("installed");
    reveal_strlit("status");
    let p = seq![
        ("name"@, JsonView::Text(listed_name(c, exe_suffix))),
        ("binary"@, if bare_names(c.bin_names, exe_suffix).len() > 0 {
            JsonView::Text("clove-"@ + bare_names(c.bin_names, exe_suffix)[0])
        } else {
            JsonView::Null
        }),
        ("path"@, JsonView::Null),
        ("version"@, JsonView::Null),
        ("latest_version"@, text_or_null(c.shown_version())),
        ("about"@, text_or_null(c.description)),
        ("provides"@, texts(Seq::empty())),
        ("commands"@, texts(commands_of(bare_names(c.bin_names, exe_suffix)))),
        ("crate"@, JsonView::Text(c.crate_name)),
        ("repository"@, text_or_null(c.repository)),
        ("published_by"@, text_or_null(c.published_by)),
        ("downloads"@, num(c.downloads as int)),
        ("yanked"@, JsonView::Bool(c.is_yanked())),
        ("installed"@, JsonView::Bool(false)),
        ("status"@, JsonView::Text("available"@)),
    ];
    assert(obj(available_entries(c, exe_suffix)) == obj(p));
    assert(p[0].0 == "name"@ && p[1].0 == "binary"@ && p[2].0 == "path"@ && p[3].0 == "version"@ && p[4].0 == "latest_version"@ && p[5].0 == "about"@ && p[6].0 == "provides"@ && p[7].0 == "commands"@ && p[8].0 == "crate"@ && p[9].0 == "repository"@ && p[10].0 == "published_by"@ && p[11].0 == "downloads"@ && p[12].0 == "yanked"@ && p[13].0 == "installed"@ && p[14].0 == "status"@);
    assert("name"@[0] != "path"@[0]);
    assert("binary"@[0] != "yanked"@[0]);
    assert("binary"@[0] != "status"@[0]);
    assert("about"@[0] != "crate"@[0]);
    assert("provides"@[0] != "commands"@[0]);
    assert("downloads"@[0] != "installed"@[0]);
    assert("yanked"@[0] != "status"@[0]);
    assert forall|i: int, j: int| 0 <= i < j < p.len() implies (#[trigger] p[i]).0 != (
    #[trigger] p[j]).0 by {
        assert(i == 0 || i == 1 || i == 2 || i == 3 || i == 4 || i == 5 || i == 6 || i == 7 || i == 8 || i == 9 || i == 10 || i == 11 || i == 12 || i == 13);
        assert(j == 1 || j == 2 || j == 3 || j == 4 || j == 5 || j == 6 || j == 7 || j == 8 || j == 9 || j == 10 || j == 11 || j == 12 || j == 13 || j == 14);
    }
    law_distinct_pairs_are_members(p);
}

/// A crate that is installed shows, in a search, that it is, where and in which version.
pub proof fn law_a_match_shows_that_it_is_installed(
    c: PluginView,
    installed: Seq<EnrichedView>,
    exe_suffix: Seq<char>,
)
    ensures
        matched(c.bin_names, installed, exe_suffix) matches Some(p) ==> {
            let row = obj(match_entries(c, installed, exe_suffix));
            &&& row.member("installed"@) == Some(JsonView::Bool(true))
            &&& row.member("status"@) == Some(JsonView::Text(p.status.word()))
            &&& row.member("path"@) == Some(JsonView::Text(p.info.path))
            &&& p.probed matches Some(i) ==> row.member("version"@) == Some(
                JsonView::Text(i.version),
            )
        },
        matched(c.bin_names, installed, exe_suffix) is None ==> obj(
            match_entries(c, installed, exe_suffix),
        ) == obj(available_entries(c, exe_suffix)),
{
    reveal_strlit("installed");
    reveal_strlit("status");
    reveal_strlit("path");
    reveal_strlit("version");

    let e = match_entries(c, installed, exe_suffix);
    let base = available_entries(c, exe_suffix);
    if matched(c.bin_names, installed, exe_suffix) is Some {
        assert(e.len() == base.len() + 4);
        let n = base.len() as int;
        assert(e[n].0 == "installed"@ && e[n + 1].0 == "status"@);
        assert(e[n + 2].0 == "path"@ && e[n + 3].0 == "version"@);
        law_objects_hold_their_pairs(e, n);
        law_objects_hold_their_pairs(e, n + 1);
        law_objects_hold_their_pairs(e, n + 2);
        law_objects_hold_their_pairs(e, n + 3);
    } else {
        assert(e =~= base);
    }
}

/// A crate is listed by the first of its binaries that is a command of clove; the commands are
/// those of all such binaries, in order.
pub proof fn law_a_crate_is_listed_by_its_command(
    c: PluginView,
    bins: Seq<Seq<char>>,
    bin: Seq<char>,
    exe_suffix: Seq<char>,
    i: int,
)
    ensures
        bare_names(Seq::empty(), exe_suffix).len() == 0,
        subcommand(bin, exe_suffix) matches Some(s) ==> bare_names(bins.push(bin), exe_suffix)
            == bare_names(bins, exe_suffix).push(s),
        subcommand(bin, exe_suffix) is None ==> bare_names(bins.push(bin), exe_suffix)
            == bare_names(bins, exe_suffix),
        bare_names(c.bin_names, exe_suffix).len() > 0 ==> listed_name(c, exe_suffix) == bare_names(
            c.bin_names,
            exe_suffix,
        )[0],
        bare_names(c.bin_names, exe_suffix).len() == 0 && c.crate_name == "clove-"@ + bin
            ==> listed_name(c, exe_suffix) == bin,
        commands_of(bins).len() == bins.len(),
        0 <= i < bins.len() ==> commands_of(bins)[i] == crate::plugin::name_command(bins[i]),
{
    assert(bins.push(bin).drop_last() =~= bins);
    let s = "clove-"@ + bin;
    assert(s.take("clove-"@.len() as int) =~= "clove-"@);
    assert(s.skip("clove-"@.len() as int) =~= bin);
}

proof fn lemma_padded_shows(s: Seq<char>, w: int)
    ensures
        text::occurs(text::padded(s, w), s),
{
    text::lemma_occurs_between(Seq::empty(), s, text::blanks(w - s.len()));
    assert(Seq::<char>::empty() + s + text::blanks(w - s.len()) =~= text::padded(s, w));
}

proof fn lemma_line_shows(
    pad: Seq<char>,
    w: (int, int, int),
    name: Seq<char>,
    version: Seq<char>,
    run_as: Seq<char>,
    about: Seq<char>,
)
    ensures
        ({
            let line = installed_line(pad, w, name, version, run_as, about);
            &&& text::begins(line, pad + name)
            &&& text::occurs(line, version)
            &&& text::occurs(line, run_as)
            &&& text::ends(line, about)
        }),
{
    let a = text::padded(name, w.0);
    let b = text::padded(version, w.1);
    let c = text::padded(run_as, w.2);
    lemma_padded_shows(version, w.1);
    lemma_padded_shows(run_as, w.2);
    let line = installed_line(pad, w, name, version, run_as, about);
    text::lemma_occurs_in_back(pad + a + "  "@, b, version);
    text::lemma_occurs_in_front(pad + a + "  "@ + b, "  "@, version);
    text::lemma_occurs_in_front(pad + a + "  "@ + b + "  "@, c, version);
    text::lemma_occurs_in_front(pad + a + "  "@ + b + "  "@ + c, "  "@, version);
    text::lemma_occurs_in_front(pad + a + "  "@ + b + "  "@ + c + "  "@, about, version);
    text::lemma_occurs_in_back(pad + a + "  "@ + b + "  "@, c, run_as);
    text::lemma_occurs_in_front(pad + a + "  "@ + b + "  "@ + c, "  "@, run_as);
    text::lemma_occurs_in_front(pad + a + "  "@ + b + "  "@ + c + "  "@, about, run_as);
    assert(line.take((pad + name).len() as int) =~= pad + name);
    assert(line.skip(line.len() - about.len()) =~= about);
}

/// The table of installed plugins has a line for each, in order, that shows its name, its
/// version, how it is reached and what it is about.
pub proof fn law_every_installed_plugin_has_its_line(
    ps: Seq<EnrichedView>,
    discovered: Seq<PluginView>,
    exe_suffix: Seq<char>,
    i: int,
)
    requires
        0 <= i < ps.len(),
    ensures
        installed_table(ps, discovered, false, exe_suffix).len() == ps.len() + 1,
        installed_table(ps, discovered, true, exe_suffix).len() == ps.len() + 1,
        installed_table(ps, discovered, true, exe_suffix)[i + 1] matches OutView::Text(line)
            && text::begins(line, "  "@ + ps[i].info.name) && text::occurs(
            line,
            version_cell(ps[i]),
        ) && text::occurs(line, text::joined(ps[i].commands, ", "@)) && text::ends(
            line,
            about_cell(ps[i], newer_release(ps[i], discovered, exe_suffix)),
        ),
        installed_table(ps, discovered, false, exe_suffix)[i + 1] matches OutView::Text(line)
            && text::begins(line, ps[i].info.name) && text::occurs(line, version_cell(ps[i])),
        ps[i].probed matches Some(p) ==> version_cell(ps[i]) == p.version && text::begins(
            about_cell(ps[i], None),
            p.about,
        ),
{
    let w = (
        widest("NAME"@, name_cells(ps)),
        widest("VERSION"@, version_cells(ps)),
        widest("RUN AS"@, command_cells(ps)),
    );
    let about = about_cell(ps[i], newer_release(ps[i], discovered, exe_suffix));
    let commands = text::joined(ps[i].commands, ", "@);
    lemma_line_shows("  "@, w, ps[i].info.name, version_cell(ps[i]), commands, about);
    lemma_line_shows(""@, w, ps[i].info.name, version_cell(ps[i]), commands, about);
    reveal_strlit("");
    assert(""@ + ps[i].info.name =~= ps[i].info.name);
    if let Some(p) = ps[i].probed {
        assert(about_cell(ps[i], None).take(p.about.len() as int) =~= p.about);
    }
}

/// What is wrong with an installed plugin is said: that it is behind or ahead of this clove,
/// and that there is a newer release.
pub proof fn law_the_about_cell_says_what_is_wrong(p: EnrichedView, v: Seq<char>)
    ensures
        p.status == PluginStatus::Outdated ==> text::ends(
            about_cell(p, None),
            "  [built for an older clove]"@,
        ),
        p.status == PluginStatus::NeedsNewerClove ==> text::ends(
            about_cell(p, None),
            "  [declares it needs a newer clove]"@,
        ),
        text::ends(about_cell(p, Some(v)), "  [update available: "@ + v + "]"@),
        p.probed is None && p.status == PluginStatus::NoInfo ==> about_cell(p, None)
            == "(no metadata)"@,
{
    let a = about_cell(p, None);
    let b = "  [built for an older clove]"@;
    let c = "  [declares it needs a newer clove]"@;
    assert(p.status == PluginStatus::Outdated ==> a.skip(a.len() - b.len()) =~= b);
    assert(p.status == PluginStatus::NeedsNewerClove ==> a.skip(a.len() - c.len()) =~= c);
    let d = about_cell(p, Some(v));
    let e = "  [update available: "@ + v + "]"@;
    assert(d.skip(d.len() - e.len()) =~= e);
    assert(p.probed is None && p.status == PluginStatus::NoInfo ==> a =~= "(no metadata)"@);
}

/// The table of available plugins has a line for each, in order, that shows its crate, its
/// version and what it is about.
pub proof fn law_every_available_plugin_has_its_line(
    cs: Seq<PluginView>,
    installed: Seq<EnrichedView>,
    exe_suffix: Seq<char>,
    i: int,
)
    requires
        0 <= i < cs.len(),
    ensures
        available_table(cs, installed, exe_suffix).len() == cs.len() + 1,
        available_table(cs, installed, exe_suffix)[i + 1] matches OutView::Text(line)
            && text::begins(line, "  "@ + cs[i].crate_name) && text::occurs(
            line,
            release_cell(cs[i]),
        ) && text::ends(line, published_cell(cs[i], installed, exe_suffix)),
        cs[i].shown_version() matches Some(v) ==> release_cell(cs[i]) == v,
        cs[i].description matches Some(d) ==> text::begins(
            published_cell(cs[i], installed, exe_suffix),
            d,
        ),
        is_here(cs[i], installed, exe_suffix) ==> text::ends(
            published_cell(cs[i], installed, exe_suffix),
            "  [installed]"@,
        ),
        cs[i].is_yanked() && !is_here(cs[i], installed, exe_suffix) ==> text::ends(
            published_cell(cs[i], installed, exe_suffix),
            "  [all versions yanked]"@,
        ),
{
    let w = (widest("CRATE"@, crate_cells(cs)), widest("VERSION"@, release_cells(cs)));
    let about = published_cell(cs[i], installed, exe_suffix);
    let a = "  "@ + text::padded(cs[i].crate_name, w.0) + "  "@;
    let b = text::padded(release_cell(cs[i]), w.1);
    let line = available_line(w, cs[i].crate_name, release_cell(cs[i]), about);
    lemma_padded_shows(release_cell(cs[i]), w.1);
    text::lemma_occurs_in_back(a, b, release_cell(cs[i]));
    text::lemma_occurs_in_front(a + b, "  "@, release_cell(cs[i]));
    text::lemma_occurs_in_front(a + b + "  "@, about, release_cell(cs[i]));
    let start = "  "@ + cs[i].crate_name;
    assert(line.take(start.len() as int) =~= start);
    assert(line.skip(line.len() - about.len()) =~= about);
    if let Some(d) = cs[i].description {
        assert(about.take(d.len() as int) =~= d);
    }
    let x = "  [installed]"@;
    let y = "  [all versions yanked]"@;
    assert(is_here(cs[i], installed, exe_suffix) ==> about.skip(about.len() - x.len()) =~= x);
    assert(cs[i].is_yanked() && !is_here(cs[i], installed, exe_suffix) ==> about.skip(
        about.len() - y.len(),
    ) =~= y);
}

/// A column is wide enough for its header and for each of its cells.
pub proof fn law_a_column_fits_its_cells(header: Seq<char>, cells: Seq<Seq<char>>)
    ensures
        widest(header, cells) >= text::byte_len(header),
        forall|i: int|
            0 <= i < cells.len() ==> widest(header, cells) >= text::byte_len(#[trigger] cells[i]),
        widest(header, cells) == text::byte_len(header) || exists|i: int|
            0 <= i < cells.len() && widest(header, cells) == text::byte_len(#[trigger] cells[i]),
    decreases cells.len(),
{
    if cells.len() > 0 {
        let init = cells.drop_last();
        law_a_column_fits_its_cells(header, init);
        assert forall|i: int| 0 <= i < cells.len() implies widest(header, cells) >= text::byte_len(
            #[trigger] cells[i],
        ) by {
            if i < init.len() {
                assert(init[i] == cells[i]);
            }
        }
        if widest(header, cells) != text::byte_len(header) {
            if widest(header, cells) == widest(header, init) {
                let i = choose|i: int|
                    0 <= i < init.len() && widest(header, init) == text::byte_len(
                        #[trigger] init[i],
                    );
                assert(cells[i] == init[i]);
            } else {
                assert(cells[cells.len() - 1] == cells.last());
            }
        }
    }
}

/// A list has every installed plugin first and then every available one, in JSON as in lines;
/// its warning is told in each format.
pub proof fn law_a_list_has_every_plugin(
    installed: Seq<EnrichedView>,
    available: Seq<PluginView>,
    discovered: Seq<PluginView>,
    w: Seq<char>,
    exe_suffix: Seq<char>,
    i: int,
)
    ensures
        ({
            let all = rows(installed, available, discovered, exe_suffix);
            &&& all.len() == installed.len() + available.len()
            &&& 0 <= i < installed.len() ==> all[i] == installed_object(
                installed[i],
                newer_release(installed[i], discovered, exe_suffix),
            )
            &&& 0 <= i < available.len() ==> all[installed.len() + i] == obj(
                available_entries(available[i], exe_suffix),
            )
            &&& list_output(
                OutputFormat::Json,
                installed,
                available,
                discovered,
                Some(w),
                true,
                exe_suffix,
            )[0] matches OutView::Json(v) && v.member("data"@) == Some(JsonView::Array(all))
                && v.member("_meta"@) == Some(
                meta_of(installed.len() as int, available.len() as int, Some(w)),
            )
            &&& list_output(
                OutputFormat::Jsonl,
                installed,
                available,
                discovered,
                Some(w),
                true,
                exe_suffix,
            ) == seq![OutView::Note("warning: "@ + w)] + item_lines(all)
            &&& list_output(
                OutputFormat::Human,
                installed,
                available,
                discovered,
                Some(w),
                true,
                exe_suffix,
            )[0] == OutView::Note("warning: "@ + w)
        }),
{
    let all = rows(installed, available, discovered, exe_suffix);
    law_a_success_carries_its_data(
        JsonView::Array(all),
        meta_of(installed.len() as int, available.len() as int, Some(w)),
    );
}

/// For people, what is installed stands under its heading and what is available under its own;
/// without the registry there is no heading, and nothing is shown where nothing is installed.
pub proof fn law_a_list_for_people_has_both_tables(
    installed: Seq<EnrichedView>,
    available: Seq<PluginView>,
    discovered: Seq<PluginView>,
    exe_suffix: Seq<char>,
)
    ensures
        installed.len() > 0 && available.len() > 0 ==> human_list(
            installed,
            available,
            discovered,
            None,
            true,
            exe_suffix,
        ) == seq![OutView::Text("Installed"@)] + installed_table(
            installed,
            discovered,
            true,
            exe_suffix,
        ) + seq![OutView::Text(""@), OutView::Text("Available"@)] + available_table(
            available,
            installed,
            exe_suffix,
        ),
        installed.len() == 0 && available.len() > 0 ==> human_list(
            installed,
            available,
            discovered,
            None,
            true,
            exe_suffix,
        ) == seq![OutView::Text("Installed"@), OutView::Text("  (none)"@)] + seq![
            OutView::Text(""@),
            OutView::Text("Available"@),
        ] + available_table(available, installed, exe_suffix),
        installed.len() > 0 ==> human_list(
            installed,
            Seq::empty(),
            discovered,
            None,
            false,
            exe_suffix,
        ) == installed_table(installed, discovered, false, exe_suffix),
        human_list(Seq::empty(), Seq::empty(), discovered, None, false, exe_suffix).len() == 0,
{
    let e = Seq::<OutView>::empty();
    if installed.len() > 0 {
        let t = installed_table(installed, discovered, false, exe_suffix);
        assert(e + (e + t + e) =~= t);
        assert(human_list(installed, Seq::empty(), discovered, None, false, exe_suffix) =~= t);
    }
    let x = human_list(installed, available, discovered, None, true, exe_suffix);
    if installed.len() > 0 && available.len() > 0 {
        assert(x =~= seq![OutView::Text("Installed"@)] + installed_table(
            installed,
            discovered,
            true,
            exe_suffix,
        ) + seq![OutView::Text(""@), OutView::Text("Available"@)] + available_table(
            available,
            installed,
            exe_suffix,
        ));
    }
    if installed.len() == 0 && available.len() > 0 {
        assert(x =~= seq![OutView::Text("Installed"@), OutView::Text("  (none)"@)] + seq![
            OutView::Text(""@),
            OutView::Text("Available"@),
        ] + available_table(available, installed, exe_suffix));
    }
}

/// A search shows each crate found, in order, and counts those that are installed.
pub proof fn law_a_search_shows_every_crate(
    cs: Seq<PluginView>,
    c: PluginView,
    installed: Seq<EnrichedView>,
    w: Option<Seq<char>>,
    exe_suffix: Seq<char>,
    i: int,
)
    ensures
        count_here(Seq::empty(), installed, exe_suffix) == 0,
        count_here(cs.push(c), installed, exe_suffix) == count_here(cs, installed, exe_suffix) + (
        if is_here(c, installed, exe_suffix) {
            1int
        } else {
            0
        }),
        search_output(OutputFormat::Json, cs, installed, w, exe_suffix)[0] matches OutView::Json(v)
            && (v.member("data"@) matches Some(JsonView::Array(items)) && items.len() == cs.len()
            && (0 <= i < cs.len() ==> items[i] == obj(match_entries(cs[i], installed, exe_suffix))))
            && v.member("_meta"@) == Some(
            meta_of(
                count_here(cs, installed, exe_suffix),
                cs.len() - count_here(cs, installed, exe_suffix),
                w,
            ),
        ),
        cs.len() > 0 ==> search_output(OutputFormat::Human, cs, installed, None, exe_suffix)
            == available_table(cs, installed, exe_suffix),
        search_output(OutputFormat::Human, Seq::empty(), installed, None, exe_suffix) == seq![
            OutView::Text("no published plugins matched"@),
        ],
{
    assert(cs.push(c).drop_last() =~= cs);
    let items = Seq::new(cs.len(), |i: int| obj(match_entries(cs[i], installed, exe_suffix)));
    law_a_success_carries_its_data(
        JsonView::Array(items),
        meta_of(
            count_here(cs, installed, exe_suffix),
            cs.len() - count_here(cs, installed, exe_suffix),
            w,
        ),
    );
    assert(cs.len() > 0 ==> search_output(OutputFormat::Human, cs, installed, None, exe_suffix)
        =~= available_table(cs, installed, exe_suffix));
    assert(search_output(OutputFormat::Human, Seq::empty(), installed, None, exe_suffix) =~= seq![
        OutView::Text("no published plugins matched"@),
    ]);
}

/// What was remembered is used as it is, unless it is to be fetched anew.
pub proof fn law_a_refresh_forgets_what_was_remembered(cached: Option<Seq<PluginView>>)
    ensures
        remembered(true, Some(cached)) is None,
        remembered(false, Some(cached)) == Some(DiscoveryView::Available(cached)),
        remembered(false, None) is None && remembered(true, None) is None,
{
}

} // verus!
