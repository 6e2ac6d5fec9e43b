//! A TTL cache for the discovery result: what is kept, and when it may be used.
//!
//! The clock is a parameter. It serves `list --all` and `search` only; an install
//! fetches its evidence live.

use vstd::prelude::*;

use crate::registry::{copy_strings, PluginView, RegistryPlugin};
use crate::text;
use crate::version::{is_semver, Version};

verus! {

/// The cache-file format version. In version 2 `latest` leaves out pre-releases.
pub const CACHE_SCHEMA: u32 = 2;

/// How long a cached discovery result stays fresh, in nanoseconds: a day.
pub const TTL: i128 = 86400000000000;

/// The cache file, relative to the clove home directory.
pub const FILE_NAME: &'static str = "registry-cache.json";

/// How many temp-file names to try before giving up on writing the cache.
pub const MAX_TEMP_ATTEMPTS: u32 = 8;

/// A ceiling on the cache file that is read back from disk.
pub const MAX_CACHE_BYTES: u64 = 16777216;

/// A plugin as the cache file holds it: versions are text.
#[derive(Debug, PartialEq, Eq)]
pub struct CachedPlugin {
    pub crate_name: String,
    pub latest: Option<String>,
    pub latest_prerelease: Option<String>,
    pub latest_yanked: Option<String>,
    pub description: Option<String>,
    pub repository: Option<String>,
    pub bin_names: Vec<String>,
    pub published_by: Option<String>,
    pub downloads: u64,
}

impl DeepView for CachedPlugin {
    type V = PluginView;

    open spec fn deep_view(&self) -> PluginView {
        PluginView {
            crate_name: self.crate_name@,
            latest: self.latest.deep_view(),
            latest_prerelease: self.latest_prerelease.deep_view(),
            latest_yanked: self.latest_yanked.deep_view(),
            description: self.description.deep_view(),
            repository: self.repository.deep_view(),
            bin_names: self.bin_names.deep_view(),
            published_by: self.published_by.deep_view(),
            downloads: self.downloads,
        }
    }
}

/// A cache file.
#[derive(Debug, PartialEq, Eq)]
pub struct CacheFile {
    pub schema: u32,
    /// Which registry produced this.
    pub registry_root: String,
    /// When it was fetched, in nanoseconds since the epoch.
    pub fetched_at: i128,
    /// `None` records that the registry itself is absent — distinct from a published
    /// registry with no dependents.
    pub plugins: Option<Vec<CachedPlugin>>,
}

/// The model of a [`CacheFile`].
pub struct CacheView {
    pub schema: u32,
    pub registry_root: Seq<char>,
    pub fetched_at: int,
    pub plugins: Option<Seq<PluginView>>,
}

impl DeepView for CacheFile {
    type V = CacheView;

    open spec fn deep_view(&self) -> CacheView {
        CacheView {
            schema: self.schema,
            registry_root: self.registry_root@,
            fetched_at: self.fetched_at as int,
            plugins: self.plugins.deep_view(),
        }
    }
}

/// A version read back from the cache: one that is no version number is dropped.
pub open spec fn revived(v: Option<Seq<char>>) -> Option<Seq<char>> {
    match v {
        Some(v) => if is_semver(v) {
            Some(v)
        } else {
            None
        },
        None => None,
    }
}

/// A plugin read back from the cache.
pub open spec fn plugin_revived(p: PluginView) -> PluginView {
    PluginView {
        latest: revived(p.latest),
        latest_prerelease: revived(p.latest_prerelease),
        latest_yanked: revived(p.latest_yanked),
        ..p
    }
}

/// Is every version of a plugin a version number?
pub open spec fn sound(p: PluginView) -> bool {
    plugin_revived(p) == p
}

fn revive(v: &Option<String>) -> (r: Option<Version>)
    ensures
        r.deep_view() == revived(v.deep_view()),
{
    match v {
        Some(s) => Version::parse(s.as_str()),
        None => None,
    }
}

fn version_text(v: &Option<Version>) -> (r: Option<String>)
    ensures
        r.deep_view() == v.deep_view(),
        revived(v.deep_view()) == v.deep_view(),
{
    match v {
        Some(v) => Some(v.as_str().to_owned()),
        None => None,
    }
}

impl CachedPlugin {
    /// A plugin as the cache file holds it.
    pub fn of(p: &RegistryPlugin) -> (r: CachedPlugin)
        ensures
            r.deep_view() == p.deep_view(),
            sound(p.deep_view()),
    {
        CachedPlugin {
            crate_name: p.crate_name.clone(),
            latest: version_text(&p.latest),
            latest_prerelease: version_text(&p.latest_prerelease),
            latest_yanked: version_text(&p.latest_yanked),
            description: p.description.clone(),
            repository: p.repository.clone(),
            bin_names: copy_strings(&p.bin_names),
            published_by: p.published_by.clone(),
            downloads: p.downloads,
        }
    }

    /// The plugin that a cache entry stands for.
    pub fn revive(&self) -> (r: RegistryPlugin)
        ensures
            r.deep_view() == plugin_revived(self.deep_view()),
    {
        RegistryPlugin {
            crate_name: self.crate_name.clone(),
            latest: revive(&self.latest),
            latest_prerelease: revive(&self.latest_prerelease),
            latest_yanked: revive(&self.latest_yanked),
            description: self.description.clone(),
            repository: self.repository.clone(),
            bin_names: copy_strings(&self.bin_names),
            published_by: self.published_by.clone(),
            downloads: self.downloads,
        }
    }
}

/// May a cache file of this size be used now? It must be of reasonable length, from
/// the registry in force, of this format, not stamped in the future, and no older
/// than the time to live.
pub open spec fn usable(
    file: CacheView,
    size: int,
    registry_root: Seq<char>,
    now: int,
    ttl: int,
) -> bool {
    &&& size <= MAX_CACHE_BYTES
    &&& file.registry_root == registry_root
    &&& file.schema == CACHE_SCHEMA
    &&& file.fetched_at <= now
    &&& now - file.fetched_at <= ttl
}

/// The plugins of a cache file.
pub open spec fn revived_all(plugins: Option<Seq<PluginView>>) -> Option<Seq<PluginView>> {
    match plugins {
        Some(ps) => Some(Seq::new(ps.len(), |i: int| plugin_revived(ps[i]))),
        None => None,
    }
}

/// Reads the cache if it may still be used at `now`. `file` is what was decoded from a
/// file of `size` bytes, if it could be: every failure is a miss, never an error.
pub fn read(
    file: Option<&CacheFile>,
    size: u64,
    registry_root: &str,
    now: i128,
    ttl: i128,
) -> (r: Option<Option<Vec<RegistryPlugin>>>)
    ensures
        r.deep_view() == (match file {
            Some(f) => if usable(
                f.deep_view(),
                size as int,
                registry_root@,
                now as int,
                ttl as int,
            ) {
                Some(revived_all(f.deep_view().plugins))
            } else {
                None
            },
            None => None,
        }),
{
    let file = match file {
        Some(f) => f,
        None => return None,
    };
    if size > MAX_CACHE_BYTES || !text::same(file.registry_root.as_str(), registry_root) {
        return None;
    }
    if file.schema != CACHE_SCHEMA || now < file.fetched_at {
        return None;
    }
    match now.checked_sub(file.fetched_at) {
        Some(age) => if age > ttl {
            return None;
        },
        None => return None,
    }
    match &file.plugins {
        Some(plugins) => {
            let ghost all = plugins.deep_view();
            let mut out: Vec<RegistryPlugin> = Vec::new();
            let mut i: usize = 0;
            while i < plugins.len()
                invariant
                    i <= plugins.len(),
                    all == plugins.deep_view(),
                    out.len() == i,
                    forall|j: int|
                        0 <= j < i ==> (#[trigger] out@[j]).deep_view() == plugin_revived(all[j]),
                decreases plugins.len() - i,
            {
                out.push(plugins[i].revive());
                i += 1;
            }
            assert(out.deep_view() =~= revived_all(Some(all))->0);
            Some(Some(out))
        },
        None => Some(None),
    }
}

/// The model of the discovery result.
pub open spec fn found(plugins: Option<&Vec<RegistryPlugin>>) -> Option<Seq<PluginView>> {
    match plugins {
        Some(ps) => Some(ps.deep_view()),
        None => None,
    }
}

/// The cache file that records a discovery result, stamped at `now`.
pub open spec fn stamped(
    registry_root: Seq<char>,
    now: int,
    plugins: Option<Seq<PluginView>>,
) -> CacheView {
    CacheView { schema: CACHE_SCHEMA, registry_root, fetched_at: now, plugins }
}

/// The cache file to write for a discovery result.
pub fn record(registry_root: &str, now: i128, plugins: Option<&Vec<RegistryPlugin>>) -> (r:
    CacheFile)
    ensures
        r.deep_view() == stamped(registry_root@, now as int, found(plugins)),
        found(plugins) matches Some(ps) ==> forall|i: int| 0 <= i < ps.len() ==> sound(#[trigger] ps[i]),
{
    let kept: Option<Vec<CachedPlugin>> = match plugins {
        Some(plugins) => {
            let ghost all = plugins.deep_view();
            let mut out: Vec<CachedPlugin> = Vec::new();
            let mut i: usize = 0;
            while i < plugins.len()
                invariant
                    i <= plugins.len(),
                    all == plugins.deep_view(),
                    out.len() == i,
                    forall|j: int|
                        0 <= j < i ==> (#[trigger] out@[j]).deep_view() == all[j] && sound(all[j]),
                decreases plugins.len() - i,
            {
                out.push(CachedPlugin::of(&plugins[i]));
                i += 1;
            }
            assert(out.deep_view() =~= all);
            assert forall|j: int| 0 <= j < all.len() implies sound(#[trigger] all[j]) by {
                assert(out@[j].deep_view() == all[j]);
            }
            Some(out)
        },
        None => None,
    };
    CacheFile {
        schema: CACHE_SCHEMA,
        registry_root: registry_root.to_owned(),
        fetched_at: now,
        plugins: kept,
    }
}

/// What was cached is read back unchanged until it is a day old, and not after; an
/// absent registry stays distinct from an empty one; and nothing is read back for
/// another registry or before it was written.
pub proof fn law_cache_reads_back(
    registry_root: Seq<char>,
    at: int,
    plugins: Option<Seq<PluginView>>,
    size: int,
    other_root: Seq<char>,
    now: int,
    ttl: int,
)
    requires
        size <= MAX_CACHE_BYTES,
        plugins matches Some(ps) ==> forall|i: int| 0 <= i < ps.len() ==> sound(#[trigger] ps[i]),
    ensures
        usable(stamped(registry_root, at, plugins), size, registry_root, now, ttl) <==> at <= now
            <= at + ttl,
        revived_all(stamped(registry_root, at, plugins).plugins) == plugins,
        other_root != registry_root ==> !usable(
            stamped(registry_root, at, plugins),
            size,
            other_root,
            now,
            ttl,
        ),
{
    if let Some(ps) = plugins {
        assert(revived_all(plugins)->0 =~= ps);
    }
}

/// The name of the temp file of an attempt, which is then renamed over the cache.
pub fn temp_name(pid: u32, attempt: u32) -> (r: String)
    ensures
        r@ == ".registry-cache.json.tmp"@ + text::decimal(pid as nat) + "-"@ + text::decimal(
            attempt as nat,
        ),
{
    let p = text::decimal_of(pid as u64);
    let a = text::decimal_of(attempt as u64);
    text::cat4(".registry-cache.json.tmp", p.as_str(), "-", a.as_str())
}

} // verus!
