//! The crates.io API client: the name probe and the reverse-dependency join.

use vstd::prelude::*;

use crate::json::{Json, JsonView};
use crate::json_text::json_parsed;
use crate::registry::{
    answer_view, copy_strings, is_crate_name, validate_crate_name, Fetch, FetchError,
    FetchErrorView, PluginView, RegistryPlugin,
};
use crate::text;
use crate::version::{has_prerelease, is_semver, semver_greater, Version};

verus! {

/// The crates.io API root.
pub const DEFAULT_API_ROOT: &'static str = "https://crates.io/api/v1";

/// Overrides the API root, for a registry mirror.
pub const API_ROOT_ENV: &'static str = "CLOVE_REGISTRY_URL";

/// crates.io caps `per_page` at this.
pub const PER_PAGE: usize = 100;

/// A hard bound on pagination, whatever the server says of its total.
pub const MAX_PAGES: usize = 50;

// ---- The documents ------------------------------------------------------------

/// One published version.
#[derive(Debug, PartialEq, Eq)]
pub struct VersionObject {
    pub id: u64,
    /// The **dependent** crate's name, in a reverse-dependency document.
    pub krate: String,
    pub num: String,
    pub bin_names: Vec<String>,
    pub description: Option<String>,
    pub repository: Option<String>,
    /// The account that published it.
    pub login: Option<String>,
    pub yanked: bool,
    pub downloads: u64,
}

/// The model of a [`VersionObject`].
pub struct VersionView {
    pub id: u64,
    pub krate: Seq<char>,
    pub num: Seq<char>,
    pub bin_names: Seq<Seq<char>>,
    pub description: Option<Seq<char>>,
    pub repository: Option<Seq<char>>,
    pub login: Option<Seq<char>>,
    pub yanked: bool,
    pub downloads: u64,
}

impl DeepView for VersionObject {
    type V = VersionView;

    open spec fn deep_view(&self) -> VersionView {
        VersionView {
            id: self.id,
            krate: self.krate@,
            num: self.num@,
            bin_names: self.bin_names.deep_view(),
            description: self.description.deep_view(),
            repository: self.repository.deep_view(),
            login: self.login.deep_view(),
            yanked: self.yanked,
            downloads: self.downloads,
        }
    }
}

/// One dependency edge. The dependent is reached through `version_id`.
#[derive(Debug, PartialEq, Eq)]
pub struct DependencyObject {
    pub version_id: u64,
    pub kind: String,
}

/// The model of a [`DependencyObject`].
pub struct DependencyView {
    pub version_id: u64,
    pub kind: Seq<char>,
}

impl DeepView for DependencyObject {
    type V = DependencyView;

    open spec fn deep_view(&self) -> DependencyView {
        DependencyView { version_id: self.version_id, kind: self.kind@ }
    }
}

/// One page of a crate's reverse dependencies.
#[derive(Debug, PartialEq, Eq)]
pub struct ReverseDepsResponse {
    pub dependencies: Vec<DependencyObject>,
    pub versions: Vec<VersionObject>,
    pub total: u64,
}

/// The model of a [`ReverseDepsResponse`].
pub struct PageView {
    pub dependencies: Seq<DependencyView>,
    pub versions: Seq<VersionView>,
    pub total: u64,
}

impl DeepView for ReverseDepsResponse {
    type V = PageView;

    open spec fn deep_view(&self) -> PageView {
        PageView {
            dependencies: self.dependencies.deep_view(),
            versions: self.versions.deep_view(),
            total: self.total,
        }
    }
}

/// What crates.io says of one crate.
#[derive(Debug, PartialEq, Eq)]
pub struct CrateResponse {
    pub name: String,
    pub description: Option<String>,
    pub repository: Option<String>,
    pub downloads: u64,
    pub versions: Vec<VersionObject>,
}

/// The model of a [`CrateResponse`].
pub struct CrateView {
    pub name: Seq<char>,
    pub description: Option<Seq<char>>,
    pub repository: Option<Seq<char>>,
    pub downloads: u64,
    pub versions: Seq<VersionView>,
}

impl DeepView for CrateResponse {
    type V = CrateView;

    open spec fn deep_view(&self) -> CrateView {
        CrateView {
            name: self.name@,
            description: self.description.deep_view(),
            repository: self.repository.deep_view(),
            downloads: self.downloads,
            versions: self.versions.deep_view(),
        }
    }
}

// ---- Reading the documents ----------------------------------------------------
//
// A field that is absent has its default; one that is there with a value of another
// type makes the whole document unreadable.

/// A text that may be absent or `null`.
pub open spec fn opt_text_at(doc: JsonView, key: Seq<char>) -> Option<Option<Seq<char>>> {
    match doc.member(key) {
        None => Some(None),
        Some(JsonView::Null) => Some(None),
        Some(JsonView::Text(s)) => Some(Some(s)),
        Some(_) => None,
    }
}

fn opt_text_field(doc: &Json, key: &str) -> (r: Option<Option<String>>)
    ensures
        r.deep_view() == opt_text_at(doc.shape(), key@),
{
    match doc.get(key) {
        None => Some(None),
        Some(Json::Null) => Some(None),
        Some(Json::Text(s)) => Some(Some(s.clone())),
        Some(_) => None,
    }
}

/// A text that is empty when absent.
pub open spec fn text_at(doc: JsonView, key: Seq<char>) -> Option<Seq<char>> {
    match doc.member(key) {
        None => Some(Seq::empty()),
        Some(v) => v.text(),
    }
}

fn text_field(doc: &Json, key: &str) -> (r: Option<String>)
    ensures
        r.deep_view() == text_at(doc.shape(), key@),
{
    match doc.get(key) {
        None => Some(String::new()),
        Some(v) => match v.as_str() {
            Some(s) => Some(s.to_owned()),
            None => None,
        },
    }
}

/// A number that is zero when absent.
pub open spec fn number_at(doc: JsonView, key: Seq<char>) -> Option<u64> {
    match doc.member(key) {
        None => Some(0),
        Some(v) => v.unsigned(),
    }
}

fn number_field(doc: &Json, key: &str) -> (r: Option<u64>)
    ensures
        r == number_at(doc.shape(), key@),
{
    match doc.get(key) {
        None => Some(0),
        Some(v) => v.as_u64(),
    }
}

/// A truth value that is false when absent.
pub open spec fn truth_at(doc: JsonView, key: Seq<char>) -> Option<bool> {
    match doc.member(key) {
        None => Some(false),
        Some(v) => v.truth(),
    }
}

fn truth_field(doc: &Json, key: &str) -> (r: Option<bool>)
    ensures
        r == truth_at(doc.shape(), key@),
{
    match doc.get(key) {
        None => Some(false),
        Some(v) => v.as_bool(),
    }
}

/// The login of the account that published a version.
pub open spec fn login_at(doc: JsonView) -> Option<Option<Seq<char>>> {
    match doc.member("published_by"@) {
        None => Some(None),
        Some(JsonView::Null) => Some(None),
        Some(JsonView::Object(e)) => opt_text_at(JsonView::Object(e), "login"@),
        Some(_) => None,
    }
}

fn login_field(doc: &Json) -> (r: Option<Option<String>>)
    ensures
        r.deep_view() == login_at(doc.shape()),
{
    match doc.get("published_by") {
        None => Some(None),
        Some(v) => match v {
            Json::Null => Some(None),
            Json::Object(_) => opt_text_field(v, "login"),
            _ => None,
        },
    }
}

/// The texts of an array of texts and `null`s.
pub open spec fn present_texts(items: Seq<JsonView>) -> Option<Seq<Seq<char>>>
    decreases items.len(),
{
    if items.len() == 0 {
        Some(Seq::empty())
    } else {
        match present_texts(items.drop_last()) {
            Some(init) => match items.last() {
                JsonView::Null => Some(init),
                JsonView::Text(s) => Some(init.push(s)),
                _ => None,
            },
            None => None,
        }
    }
}

proof fn lemma_present_texts_prefix(items: Seq<JsonView>, n: int)
    requires
        0 <= n <= items.len(),
        present_texts(items.take(n)) is None,
    ensures
        present_texts(items) is None,
    decreases items.len() - n,
{
    if n < items.len() {
        assert(items.take(n + 1).drop_last() =~= items.take(n));
        lemma_present_texts_prefix(items, n + 1);
    } else {
        assert(items.take(n) =~= items);
    }
}

/// The binaries that a version lists.
pub open spec fn bins_at(doc: JsonView) -> Option<Seq<Seq<char>>> {
    match doc.member("bin_names"@) {
        None => Some(Seq::empty()),
        Some(JsonView::Array(items)) => present_texts(items),
        Some(_) => None,
    }
}

fn bins_field(doc: &Json) -> (r: Option<Vec<String>>)
    ensures
        r.deep_view() == bins_at(doc.shape()),
{
    let mut out: Vec<String> = Vec::new();
    assert(out.deep_view() =~= Seq::<Seq<char>>::empty());
    let items: &Vec<Json> = match doc.get("bin_names") {
        None => return Some(out),
        Some(v) => match v.as_array() {
            Some(items) => items,
            None => return None,
        },
    };
    let ghost all = items.deep_view();
    let mut i: usize = 0;
    assert(all.take(0) =~= Seq::<JsonView>::empty());
    while i < items.len()
        invariant
            i <= items.len(),
            all == items.deep_view(),
            doc.shape().member("bin_names"@) == Some(JsonView::Array(all)),
            present_texts(all.take(i as int)) == Some(out.deep_view()),
        decreases items.len() - i,
    {
        assert(all[i as int] == items@[i as int].shape());
        assert(all.take(i + 1).drop_last() =~= all.take(i as int));
        match &items[i] {
            Json::Null => {},
            Json::Text(s) => {
                let ghost before = out.deep_view();
                out.push(s.clone());
                assert(out.deep_view() =~= before.push(s@));
            },
            _ => {
                proof {
                    lemma_present_texts_prefix(all, i + 1);
                }
                return None;
            },
        }
        i += 1;
    }
    assert(all.take(i as int) =~= all);
    Some(out)
}

/// A version as its document describes it.
pub open spec fn version_doc(doc: JsonView) -> Option<VersionView> {
    if doc is Object && number_at(doc, "id"@) is Some && text_at(doc, "crate"@) is Some && text_at(
        doc,
        "num"@,
    ) is Some && bins_at(doc) is Some && opt_text_at(doc, "description"@) is Some && opt_text_at(
        doc,
        "repository"@,
    ) is Some && login_at(doc) is Some && truth_at(doc, "yanked"@) is Some && number_at(
        doc,
        "downloads"@,
    ) is Some {
        Some(
            VersionView {
                id: number_at(doc, "id"@)->0,
                krate: text_at(doc, "crate"@)->0,
                num: text_at(doc, "num"@)->0,
                bin_names: bins_at(doc)->0,
                description: opt_text_at(doc, "description"@)->0,
                repository: opt_text_at(doc, "repository"@)->0,
                login: login_at(doc)->0,
                yanked: truth_at(doc, "yanked"@)->0,
                downloads: number_at(doc, "downloads"@)->0,
            },
        )
    } else {
        None
    }
}

fn read_version(doc: &Json) -> (r: Option<VersionObject>)
    ensures
        r.deep_view() == version_doc(doc.shape()),
{
    match doc {
        Json::Object(_) => {},
        _ => return None,
    }
    match (
        number_field(doc, "id"),
        text_field(doc, "crate"),
        text_field(doc, "num"),
        bins_field(doc),
        opt_text_field(doc, "description"),
        opt_text_field(doc, "repository"),
        login_field(doc),
        truth_field(doc, "yanked"),
        number_field(doc, "downloads"),
    ) {
        (
            Some(id),
            Some(krate),
            Some(num),
            Some(bin_names),
            Some(description),
            Some(repository),
            Some(login),
            Some(yanked),
            Some(downloads),
        ) => Some(
            VersionObject {
                id,
                krate,
                num,
                bin_names,
                description,
                repository,
                login,
                yanked,
                downloads,
            },
        ),
        _ => None,
    }
}

/// The versions under `versions`, none when absent.
pub open spec fn versions_at(doc: JsonView) -> Option<Seq<VersionView>> {
    match doc.member("versions"@) {
        None => Some(Seq::empty()),
        Some(JsonView::Array(items)) => if forall|i: int|
            0 <= i < items.len() ==> version_doc(#[trigger] items[i]) is Some {
            Some(Seq::new(items.len(), |i: int| version_doc(items[i])->0))
        } else {
            None
        },
        Some(_) => None,
    }
}

fn versions_field(doc: &Json) -> (r: Option<Vec<VersionObject>>)
    ensures
        r.deep_view() == versions_at(doc.shape()),
{
    let mut out: Vec<VersionObject> = Vec::new();
    assert(out.deep_view() =~= Seq::<VersionView>::empty());
    let items: &Vec<Json> = match doc.get("versions") {
        None => return Some(out),
        Some(v) => match v.as_array() {
            Some(items) => items,
            None => return None,
        },
    };
    let ghost all = items.deep_view();
    let mut i: usize = 0;
    while i < items.len()
        invariant
            i <= items.len(),
            all == items.deep_view(),
            doc.shape().member("versions"@) == Some(JsonView::Array(all)),
            out.len() == i,
            forall|j: int|
                0 <= j < i ==> version_doc(#[trigger] all[j]) == Some(out@[j].deep_view()),
        decreases items.len() - i,
    {
        assert(all[i as int] == items@[i as int].shape());
        match read_version(&items[i]) {
            Some(v) => {
                out.push(v);
            },
            None => {
                assert(version_doc(all[i as int]) is None);
                return None;
            },
        }
        i += 1;
    }
    assert forall|j: int| 0 <= j < all.len() implies version_doc(all[j])->0
        == #[trigger] out@[j].deep_view() by {
        assert(version_doc(all[j]) is Some);
    }
    assert(out.deep_view() =~= versions_at(doc.shape())->0);
    Some(out)
}

/// A dependency edge as its document describes it.
pub open spec fn dependency_doc(doc: JsonView) -> Option<DependencyView> {
    if doc is Object && number_at(doc, "version_id"@) is Some && text_at(doc, "kind"@) is Some {
        Some(
            DependencyView {
                version_id: number_at(doc, "version_id"@)->0,
                kind: text_at(doc, "kind"@)->0,
            },
        )
    } else {
        None
    }
}

fn read_dependency(doc: &Json) -> (r: Option<DependencyObject>)
    ensures
        r.deep_view() == dependency_doc(doc.shape()),
{
    match doc {
        Json::Object(_) => {},
        _ => return None,
    }
    match (number_field(doc, "version_id"), text_field(doc, "kind")) {
        (Some(version_id), Some(kind)) => Some(DependencyObject { version_id, kind }),
        _ => None,
    }
}

/// The edges under `dependencies`, none when absent.
pub open spec fn dependencies_at(doc: JsonView) -> Option<Seq<DependencyView>> {
    match doc.member("dependencies"@) {
        None => Some(Seq::empty()),
        Some(JsonView::Array(items)) => if forall|i: int|
            0 <= i < items.len() ==> dependency_doc(#[trigger] items[i]) is Some {
            Some(Seq::new(items.len(), |i: int| dependency_doc(items[i])->0))
        } else {
            None
        },
        Some(_) => None,
    }
}

fn dependencies_field(doc: &Json) -> (r: Option<Vec<DependencyObject>>)
    ensures
        r.deep_view() == dependencies_at(doc.shape()),
{
    let mut out: Vec<DependencyObject> = Vec::new();
    assert(out.deep_view() =~= Seq::<DependencyView>::empty());
    let items: &Vec<Json> = match doc.get("dependencies") {
        None => return Some(out),
        Some(v) => match v.as_array() {
            Some(items) => items,
            None => return None,
        },
    };
    let ghost all = items.deep_view();
    let mut i: usize = 0;
    while i < items.len()
        invariant
            i <= items.len(),
            all == items.deep_view(),
            doc.shape().member("dependencies"@) == Some(JsonView::Array(all)),
            out.len() == i,
            forall|j: int|
                0 <= j < i ==> dependency_doc(#[trigger] all[j]) == Some(out@[j].deep_view()),
        decreases items.len() - i,
    {
        assert(all[i as int] == items@[i as int].shape());
        match read_dependency(&items[i]) {
            Some(d) => {
                out.push(d);
            },
            None => {
                assert(dependency_doc(all[i as int]) is None);
                return None;
            },
        }
        i += 1;
    }
    assert forall|j: int| 0 <= j < all.len() implies dependency_doc(all[j])->0
        == #[trigger] out@[j].deep_view() by {
        assert(dependency_doc(all[j]) is Some);
    }
    assert(out.deep_view() =~= dependencies_at(doc.shape())->0);
    Some(out)
}

/// The total that a page states, zero when absent.
pub open spec fn total_at(doc: JsonView) -> Option<u64> {
    match doc.member("meta"@) {
        None => Some(0),
        Some(JsonView::Object(e)) => number_at(JsonView::Object(e), "total"@),
        Some(_) => None,
    }
}

fn total_field(doc: &Json) -> (r: Option<u64>)
    ensures
        r == total_at(doc.shape()),
{
    match doc.get("meta") {
        None => Some(0),
        Some(v) => match v {
            Json::Object(_) => number_field(v, "total"),
            _ => None,
        },
    }
}

/// A page of reverse dependencies as its document describes it.
pub open spec fn page_doc(doc: JsonView) -> Option<PageView> {
    if doc is Object && dependencies_at(doc) is Some && versions_at(doc) is Some && total_at(
        doc,
    ) is Some {
        Some(
            PageView {
                dependencies: dependencies_at(doc)->0,
                versions: versions_at(doc)->0,
                total: total_at(doc)->0,
            },
        )
    } else {
        None
    }
}

/// Reads a page of reverse dependencies out of its document.
pub fn read_page(doc: &Json) -> (r: Option<ReverseDepsResponse>)
    ensures
        r.deep_view() == page_doc(doc.shape()),
{
    match doc {
        Json::Object(_) => {},
        _ => return None,
    }
    match (dependencies_field(doc), versions_field(doc), total_field(doc)) {
        (Some(dependencies), Some(versions), Some(total)) => Some(
            ReverseDepsResponse { dependencies, versions, total },
        ),
        _ => None,
    }
}

/// A crate as its document describes it. Its name must be there.
pub open spec fn crate_doc(doc: JsonView) -> Option<CrateView> {
    match doc.member("crate"@) {
        Some(JsonView::Object(e)) => {
            let krate = JsonView::Object(e);
            if krate.member("name"@) matches Some(JsonView::Text(name)) && opt_text_at(
                krate,
                "description"@,
            ) is Some && opt_text_at(krate, "repository"@) is Some && number_at(
                krate,
                "downloads"@,
            ) is Some && versions_at(doc) is Some {
                Some(
                    CrateView {
                        name: krate.member("name"@)->0->Text_0,
                        description: opt_text_at(krate, "description"@)->0,
                        repository: opt_text_at(krate, "repository"@)->0,
                        downloads: number_at(krate, "downloads"@)->0,
                        versions: versions_at(doc)->0,
                    },
                )
            } else {
                None
            }
        },
        _ => None,
    }
}

/// Reads what crates.io says of one crate out of its document.
pub fn read_crate(doc: &Json) -> (r: Option<CrateResponse>)
    ensures
        r.deep_view() == crate_doc(doc.shape()),
{
    let krate: &Json = match doc.get("crate") {
        Some(k) => match k {
            Json::Object(_) => k,
            _ => return None,
        },
        None => return None,
    };
    let name: String = match krate.get("name") {
        Some(Json::Text(s)) => s.clone(),
        _ => return None,
    };
    match (
        opt_text_field(krate, "description"),
        opt_text_field(krate, "repository"),
        number_field(krate, "downloads"),
        versions_field(doc),
    ) {
        (Some(description), Some(repository), Some(downloads), Some(versions)) => Some(
            CrateResponse { name, description, repository, downloads, versions },
        ),
        _ => None,
    }
}

// ---- Ranking versions ---------------------------------------------------------

/// What a published version counts as.
#[derive(Debug, Clone, Copy, PartialEq, Eq, Structural)]
pub enum Standing {
    /// A release that can be installed.
    Stable,
    /// A pre-release that can be installed.
    Prerelease,
    /// A version that was pulled.
    Yanked,
    /// Not a version number.
    Unparsed,
}

/// What a published version counts as.
pub open spec fn standing(v: VersionView) -> Standing {
    if !is_semver(v.num) {
        Standing::Unparsed
    } else if v.yanked {
        Standing::Yanked
    } else if has_prerelease(v.num) {
        Standing::Prerelease
    } else {
        Standing::Stable
    }
}

/// Is `num` above the version that holds the place now, if any does?
pub open spec fn beats(num: Seq<char>, current: Option<Seq<char>>) -> bool {
    match current {
        Some(c) => semver_greater(num, c),
        None => true,
    }
}

/// The version that holds the place of a given standing.
pub open spec fn holder(p: PluginView, s: Standing) -> Option<Seq<char>> {
    match s {
        Standing::Stable => p.latest,
        Standing::Prerelease => p.latest_prerelease,
        Standing::Yanked => p.latest_yanked,
        Standing::Unparsed => None,
    }
}

/// Is a version the best one seen, so that the crate is described by it? `above` is
/// whether it is above the holder of its own place, and the other three are whether
/// each place is taken. A stable release ranks over a pre-release, and that over a
/// yanked version.
pub open spec fn leads(
    s: Standing,
    above: bool,
    stable: bool,
    prerelease: bool,
    yanked: bool,
) -> bool {
    match s {
        Standing::Stable => above,
        Standing::Prerelease => !stable && above,
        Standing::Yanked => !stable && !prerelease && above,
        Standing::Unparsed => !stable && !prerelease && !yanked,
    }
}

/// Is a version of this standing the best one seen?
pub fn takes_lead(
    standing: Standing,
    above: bool,
    stable: bool,
    prerelease: bool,
    yanked: bool,
) -> (r: bool)
    ensures
        r == leads(standing, above, stable, prerelease, yanked),
{
    match standing {
        Standing::Stable => above,
        Standing::Prerelease => !stable && above,
        Standing::Yanked => !stable && !prerelease && above,
        Standing::Unparsed => !stable && !prerelease && !yanked,
    }
}

/// Is `v` the best version seen of a crate?
pub open spec fn is_new_best(p: PluginView, v: VersionView) -> bool {
    leads(
        standing(v),
        beats(v.num, holder(p, standing(v))),
        p.latest is Some,
        p.latest_prerelease is Some,
        p.latest_yanked is Some,
    )
}

/// The holder of a place once `v` has been seen.
pub open spec fn place_after(p: PluginView, v: VersionView, place: Standing) -> Option<Seq<char>> {
    if standing(v) == place && beats(v.num, holder(p, place)) {
        Some(v.num)
    } else {
        holder(p, place)
    }
}

/// A crate once one more of its versions has been seen: the highest of each standing
/// holds its place, and the description is that of the best.
pub open spec fn absorbed(p: PluginView, v: VersionView) -> PluginView {
    let best = is_new_best(p, v);
    PluginView {
        crate_name: p.crate_name,
        latest: place_after(p, v, Standing::Stable),
        latest_prerelease: place_after(p, v, Standing::Prerelease),
        latest_yanked: place_after(p, v, Standing::Yanked),
        description: if best {
            v.description
        } else {
            p.description
        },
        repository: if best {
            v.repository
        } else {
            p.repository
        },
        bin_names: if best {
            v.bin_names
        } else {
            p.bin_names
        },
        published_by: if best {
            v.login
        } else {
            p.published_by
        },
        downloads: if p.downloads < v.downloads {
            v.downloads
        } else {
            p.downloads
        },
    }
}

/// Is a place held, by a version that `num` is not above?
pub open spec fn capped(place: Option<Seq<char>>, num: Seq<char>) -> bool {
    place matches Some(c) && is_semver(c) && !semver_greater(num, c)
}

/// Does the holder of `v`'s place rank no lower than `v`?
pub open spec fn tops(p: PluginView, v: VersionView) -> bool {
    standing(v) == Standing::Unparsed || capped(holder(p, standing(v)), v.num)
}

/// Does `version` take the place that `place` holds? If so, it holds it afterwards.
fn contend(place: &mut Option<Version>, version: &Version) -> (r: bool)
    ensures
        r == beats(version@, old(place).deep_view()),
        final(place).deep_view() == (if r {
            Some(version@)
        } else {
            old(place).deep_view()
        }),
        capped(final(place).deep_view(), version@),
        forall|w: Seq<char>|
            is_semver(w) && #[trigger] capped(old(place).deep_view(), w) ==> capped(
                final(place).deep_view(),
                w,
            ),
{
    let _text: &str = version.as_str();
    let better = match &*place {
        Some(current) => version.newer_than(current),
        None => true,
    };
    if better {
        *place = Some(version.clone());
    }
    better
}

/// Takes one more version of a crate into account. Whatever version held a place,
/// the new holder ranks no lower, and no lower than `version`.
fn absorb(entry: &mut RegistryPlugin, version: &VersionObject)
    ensures
        final(entry).deep_view() == absorbed(old(entry).deep_view(), version.deep_view()),
        tops(final(entry).deep_view(), version.deep_view()),
        forall|w: VersionView|
            #[trigger] tops(old(entry).deep_view(), w) ==> tops(final(entry).deep_view(), w),
{
    let ghost before = entry.deep_view();
    let stable = entry.latest.is_some();
    let prerelease = entry.latest_prerelease.is_some();
    let yanked = entry.latest_yanked.is_some();
    let (standing, above): (Standing, bool) = match Version::parse(version.num.as_str()) {
        Some(parsed) => if version.yanked {
            (Standing::Yanked, contend(&mut entry.latest_yanked, &parsed))
        } else if parsed.is_prerelease() {
            (Standing::Prerelease, contend(&mut entry.latest_prerelease, &parsed))
        } else {
            (Standing::Stable, contend(&mut entry.latest, &parsed))
        },
        None => (Standing::Unparsed, true),
    };
    if takes_lead(standing, above, stable, prerelease, yanked) {
        entry.description = version.description.clone();
        entry.repository = version.repository.clone();
        entry.bin_names = copy_strings(&version.bin_names);
        entry.published_by = version.login.clone();
    }
    if entry.downloads < version.downloads {
        entry.downloads = version.downloads;
    }
    assert(entry.deep_view() == absorbed(before, version.deep_view()));
    assert forall|w: VersionView| #[trigger] tops(before, w) implies tops(entry.deep_view(), w) by {
        if self::standing(w) != Standing::Unparsed {
            assert(capped(holder(before, self::standing(w)), w.num));
        }
    }
}

// ---- The join -----------------------------------------------------------------

/// A crate of which nothing is known but its name.
pub open spec fn fresh(name: Seq<char>) -> PluginView {
    PluginView {
        crate_name: name,
        latest: None,
        latest_prerelease: None,
        latest_yanked: None,
        description: None,
        repository: None,
        bin_names: Seq::empty(),
        published_by: None,
        downloads: 0,
    }
}

fn fresh_plugin(name: &str) -> (r: RegistryPlugin)
    ensures
        r.deep_view() == fresh(name@),
{
    let r = RegistryPlugin {
        crate_name: name.to_owned(),
        latest: None,
        latest_prerelease: None,
        latest_yanked: None,
        description: None,
        repository: None,
        bin_names: Vec::new(),
        published_by: None,
        downloads: 0,
    };
    assert(r.deep_view().bin_names =~= Seq::<Seq<char>>::empty());
    r
}

/// The crates, ordered by name, once one more version has been seen.
pub open spec fn recorded(acc: Seq<PluginView>, v: VersionView) -> Seq<PluginView>
    decreases acc.len(),
{
    if acc.len() == 0 {
        seq![absorbed(fresh(v.krate), v)]
    } else if acc[0].crate_name == v.krate {
        seq![absorbed(acc[0], v)] + acc.drop_first()
    } else if text::precedes(v.krate, acc[0].crate_name) {
        seq![absorbed(fresh(v.krate), v)] + acc
    } else {
        seq![acc[0]] + recorded(acc.drop_first(), v)
    }
}

/// The version that an edge joins to: the last one of that id.
pub open spec fn joined_version(versions: Seq<VersionView>, id: u64) -> Option<VersionView>
    decreases versions.len(),
{
    if versions.len() == 0 {
        None
    } else if versions.last().id == id {
        Some(versions.last())
    } else {
        joined_version(versions.drop_last(), id)
    }
}

/// The version that an edge contributes, if it is a normal dependency of a named
/// crate. A crate that merely *dev*-depends on the root is no plugin.
pub open spec fn contributes(d: DependencyView, versions: Seq<VersionView>) -> Option<VersionView> {
    if d.kind != "normal"@ {
        None
    } else {
        match joined_version(versions, d.version_id) {
            Some(v) => if v.krate.len() > 0 {
                Some(v)
            } else {
                None
            },
            None => None,
        }
    }
}

/// The crates once the first `n` edges of a page have been folded in.
pub open spec fn merged_to(acc: Seq<PluginView>, page: PageView, n: int) -> Seq<PluginView>
    decreases n,
{
    if n <= 0 {
        acc
    } else {
        let before = merged_to(acc, page, n - 1);
        match contributes(page.dependencies[n - 1], page.versions) {
            Some(v) => recorded(before, v),
            None => before,
        }
    }
}

/// The crates once a page has been folded in.
pub open spec fn merged(acc: Seq<PluginView>, page: PageView) -> Seq<PluginView> {
    merged_to(acc, page, page.dependencies.len() as int)
}

/// Every crate once, in the order of the names.
pub open spec fn strictly_ordered(acc: Seq<PluginView>) -> bool {
    forall|i: int, j: int|
        0 <= i < j < acc.len() ==> text::precedes(
            (#[trigger] acc[i]).crate_name,
            (#[trigger] acc[j]).crate_name,
        )
}

/// Is `w` accounted for: does its crate stand in the list, with a holder of its place
/// that ranks no lower?
pub open spec fn accounted(acc: Seq<PluginView>, w: VersionView) -> bool {
    exists|k: int| 0 <= k < acc.len() && (#[trigger] acc[k]).crate_name == w.krate && tops(acc[k], w)
}

proof fn lemma_recorded_at(acc: Seq<PluginView>, v: VersionView, n: int)
    requires
        0 <= n <= acc.len(),
        forall|j: int|
            0 <= j < n ==> (#[trigger] acc[j]).crate_name != v.krate && !text::precedes(
                v.krate,
                acc[j].crate_name,
            ),
        n < acc.len() ==> acc[n].crate_name == v.krate || text::precedes(
            v.krate,
            acc[n].crate_name,
        ),
    ensures
        recorded(acc, v) == (if n < acc.len() && acc[n].crate_name == v.krate {
            acc.update(n, absorbed(acc[n], v))
        } else {
            acc.insert(n, absorbed(fresh(v.krate), v))
        }),
    decreases n,
{
    if n > 0 {
        let rest = acc.drop_first();
        assert forall|j: int| 0 <= j < n - 1 implies (#[trigger] rest[j]).crate_name != v.krate
            && !text::precedes(v.krate, rest[j].crate_name) by {
            assert(rest[j] == acc[j + 1]);
        }
        lemma_recorded_at(rest, v, n - 1);
        if n < acc.len() && acc[n].crate_name == v.krate {
            assert(seq![acc[0]] + rest.update(n - 1, absorbed(acc[n], v)) =~= acc.update(
                n,
                absorbed(acc[n], v),
            ));
        } else {
            assert(seq![acc[0]] + rest.insert(n - 1, absorbed(fresh(v.krate), v)) =~= acc.insert(
                n,
                absorbed(fresh(v.krate), v),
            ));
        }
    } else if acc.len() == 0 {
        assert(seq![absorbed(fresh(v.krate), v)] =~= acc.insert(0, absorbed(fresh(v.krate), v)));
    } else if acc[0].crate_name == v.krate {
        assert(seq![absorbed(acc[0], v)] + acc.drop_first() =~= acc.update(
            0,
            absorbed(acc[0], v),
        ));
    } else {
        assert(seq![absorbed(fresh(v.krate), v)] + acc =~= acc.insert(
            0,
            absorbed(fresh(v.krate), v),
        ));
    }
}

/// Records one more version. The list stays ordered with every crate once, and every
/// version that was accounted for still is.
fn record(acc: &mut Vec<RegistryPlugin>, version: &VersionObject)
    ensures
        final(acc).deep_view() == recorded(old(acc).deep_view(), version.deep_view()),
        accounted(final(acc).deep_view(), version.deep_view()),
        forall|w: VersionView|
            #[trigger] accounted(old(acc).deep_view(), w) ==> accounted(final(acc).deep_view(), w),
        strictly_ordered(old(acc).deep_view()) ==> strictly_ordered(final(acc).deep_view()),
{
    let ghost before = acc.deep_view();
    let ghost v = version.deep_view();
    let mut n: usize = 0;
    while n < acc.len() && !text::same(acc[n].crate_name.as_str(), version.krate.as_str())
        && !text::less(version.krate.as_str(), acc[n].crate_name.as_str())
        invariant
            n <= acc.len(),
            before == acc.deep_view(),
            v == version.deep_view(),
            forall|j: int|
                0 <= j < n ==> (#[trigger] before[j]).crate_name != v.krate && !text::precedes(
                    v.krate,
                    before[j].crate_name,
                ),
        decreases acc.len() - n,
    {
        assert(before[n as int] == acc@[n as int].deep_view());
        n += 1;
    }
    proof {
        if n < acc.len() {
            assert(before[n as int] == acc@[n as int].deep_view());
        }
        lemma_recorded_at(before, v, n as int);
    }
    if n < acc.len() && text::same(acc[n].crate_name.as_str(), version.krate.as_str()) {
        let mut entry = acc[n].clone();
        let ghost old_entry = entry.deep_view();
        absorb(&mut entry, version);
        let ghost new_entry = entry.deep_view();
        acc[n] = entry;
        let ghost after = acc.deep_view();
        assert(after =~= before.update(n as int, new_entry));
        assert(after[n as int].crate_name == v.krate);
        assert forall|w: VersionView| #[trigger] accounted(before, w) implies accounted(
            after,
            w,
        ) by {
            let k = choose|k: int|
                0 <= k < before.len() && (#[trigger] before[k]).crate_name == w.krate && tops(
                    before[k],
                    w,
                );
            assert(after[k].crate_name == w.krate && tops(after[k], w));
        }
        assert(strictly_ordered(before) ==> strictly_ordered(after));
    } else {
        let mut entry = fresh_plugin(version.krate.as_str());
        absorb(&mut entry, version);
        let ghost new_entry = entry.deep_view();
        acc.insert(n, entry);
        let ghost after = acc.deep_view();
        assert(after =~= before.insert(n as int, new_entry));
        assert(after[n as int].crate_name == v.krate);
        assert forall|w: VersionView| #[trigger] accounted(before, w) implies accounted(
            after,
            w,
        ) by {
            let k = choose|k: int|
                0 <= k < before.len() && (#[trigger] before[k]).crate_name == w.krate && tops(
                    before[k],
                    w,
                );
            if k < n {
                assert(after[k] == before[k]);
            } else {
                assert(after[k + 1] == before[k]);
            }
        }
        proof {
            if strictly_ordered(before) {
                lemma_insert_strictly(before, n as int, new_entry);
            }
        }
    }
}

proof fn lemma_insert_strictly(before: Seq<PluginView>, n: int, x: PluginView)
    requires
        0 <= n <= before.len(),
        strictly_ordered(before),
        forall|j: int|
            0 <= j < n ==> (#[trigger] before[j]).crate_name != x.crate_name && !text::precedes(
                x.crate_name,
                before[j].crate_name,
            ),
        n < before.len() ==> text::precedes(x.crate_name, before[n].crate_name),
    ensures
        strictly_ordered(before.insert(n, x)),
{
    let after = before.insert(n, x);
    assert forall|i: int, j: int| 0 <= i < j < after.len() implies text::precedes(
        (#[trigger] after[i]).crate_name,
        (#[trigger] after[j]).crate_name,
    ) by {
        if j < n {
            assert(after[i] == before[i] && after[j] == before[j]);
        } else if j == n {
            assert(after[i] == before[i]);
            text::lemma_precedes_total(before[i].crate_name, x.crate_name);
        } else if i == n {
            assert(after[j] == before[j - 1]);
            if j - 1 > n {
                text::lemma_precedes_trans(
                    x.crate_name,
                    before[n].crate_name,
                    before[j - 1].crate_name,
                );
            }
        } else if i < n {
            assert(after[i] == before[i] && after[j] == before[j - 1]);
        } else {
            assert(after[i] == before[i - 1] && after[j] == before[j - 1]);
        }
    }
}

proof fn lemma_joined_version(versions: Seq<VersionView>, id: u64, n: int)
    requires
        0 <= n <= versions.len(),
        forall|j: int| n <= j < versions.len() ==> (#[trigger] versions[j]).id != id,
        n > 0 ==> versions[n - 1].id == id,
    ensures
        joined_version(versions, id) == (if n > 0 {
            Some(versions[n - 1])
        } else {
            None
        }),
    decreases versions.len(),
{
    if n < versions.len() {
        lemma_joined_version(versions.drop_last(), id, n);
    }
}

fn find_version(versions: &Vec<VersionObject>, id: u64) -> (r: Option<&VersionObject>)
    ensures
        match r {
            Some(v) => joined_version(versions.deep_view(), id) == Some(v.deep_view()),
            None => joined_version(versions.deep_view(), id) is None,
        },
{
    let ghost all = versions.deep_view();
    let mut n: usize = versions.len();
    while n > 0
        invariant
            n <= versions.len(),
            all == versions.deep_view(),
            forall|j: int| n <= j < all.len() ==> (#[trigger] all[j]).id != id,
        decreases n,
    {
        assert(all[n - 1] == versions@[n - 1].deep_view());
        if versions[n - 1].id == id {
            proof {
                lemma_joined_version(all, id, n as int);
            }
            return Some(&versions[n - 1]);
        }
        n -= 1;
    }
    proof {
        lemma_joined_version(all, id, 0);
    }
    None
}

/// Folds one page of reverse dependencies into the accumulating result: each edge
/// of kind `normal` is joined to its version, whose crate is the dependent, and one
/// crate's versions collapse to the highest of each standing, in semver's order.
pub fn merge_page(acc: &mut Vec<RegistryPlugin>, page: &ReverseDepsResponse)
    ensures
        final(acc).deep_view() == merged(old(acc).deep_view(), page.deep_view()),
        strictly_ordered(old(acc).deep_view()) ==> strictly_ordered(final(acc).deep_view()),
        forall|w: VersionView|
            #[trigger] accounted(old(acc).deep_view(), w) ==> accounted(final(acc).deep_view(), w),
        forall|j: int|
            0 <= j < page.deep_view().dependencies.len() ==> (contributes(
                #[trigger] page.deep_view().dependencies[j],
                page.deep_view().versions,
            ) matches Some(w) ==> accounted(final(acc).deep_view(), w)),
{
    let ghost start = acc.deep_view();
    let ghost p = page.deep_view();
    let mut i: usize = 0;
    while i < page.dependencies.len()
        invariant
            i <= page.dependencies.len(),
            p == page.deep_view(),
            acc.deep_view() == merged_to(start, p, i as int),
            strictly_ordered(start) ==> strictly_ordered(acc.deep_view()),
            forall|w: VersionView|
                #[trigger] accounted(start, w) ==> accounted(acc.deep_view(), w),
            forall|j: int|
                0 <= j < i ==> (contributes(#[trigger] p.dependencies[j], p.versions) matches Some(
                    w,
                ) ==> accounted(acc.deep_view(), w)),
        decreases page.dependencies.len() - i,
    {
        let dep = &page.dependencies[i];
        let ghost before = acc.deep_view();
        assert(p.dependencies[i as int] == dep.deep_view());
        if text::same(dep.kind.as_str(), "normal") {
            if let Some(version) = find_version(&page.versions, dep.version_id) {
                if !version.krate.as_str().is_empty() {
                    record(acc, version);
                }
            }
        }
        assert forall|j: int| 0 <= j < i + 1 implies (contributes(
            #[trigger] p.dependencies[j],
            p.versions,
        ) matches Some(w) ==> accounted(acc.deep_view(), w)) by {
            if j < i {
                if let Some(w) = contributes(p.dependencies[j], p.versions) {
                    assert(accounted(before, w));
                }
            }
        }
        i += 1;
    }
}

proof fn lemma_recorded_names(acc: Seq<PluginView>, v: VersionView, i: int)
    requires
        0 <= i < recorded(acc, v).len(),
    ensures
        recorded(acc, v)[i].crate_name == v.krate || exists|k: int|
            0 <= k < acc.len() && (#[trigger] acc[k]).crate_name == recorded(acc, v)[i].crate_name,
    decreases acc.len(),
{
    if acc.len() == 0 {
    } else if acc[0].crate_name == v.krate {
        if i > 0 {
            assert(acc[i].crate_name == recorded(acc, v)[i].crate_name);
        }
    } else if text::precedes(v.krate, acc[0].crate_name) {
        if i > 0 {
            assert(acc[i - 1].crate_name == recorded(acc, v)[i].crate_name);
        }
    } else if i == 0 {
        assert(acc[0].crate_name == recorded(acc, v)[i].crate_name);
    } else {
        let rest = acc.drop_first();
        lemma_recorded_names(rest, v, i - 1);
        assert(recorded(acc, v)[i] == recorded(rest, v)[i - 1]);
        if recorded(rest, v)[i - 1].crate_name != v.krate {
            let k = choose|k: int|
                0 <= k < rest.len() && (#[trigger] rest[k]).crate_name == recorded(
                    rest,
                    v,
                )[i - 1].crate_name;
            assert(acc[k + 1] == rest[k]);
        }
    }
}

/// A crate is listed only for a page's edge of kind `normal` that joins to one of its
/// versions: never for a dev-dependency, and never under the name of the crate that
/// is depended on, which no edge's version carries.
pub proof fn law_only_normal_dependents_are_listed(page: PageView, i: int)
    requires
        0 <= i < merged(Seq::empty(), page).len(),
    ensures
        exists|j: int|
            0 <= j < page.dependencies.len() && (contributes(
                #[trigger] page.dependencies[j],
                page.versions,
            ) matches Some(v) && v.krate == merged(Seq::empty(), page)[i].crate_name),
{
    lemma_listed_from_edges(page, page.dependencies.len() as int, i);
}

proof fn lemma_listed_from_edges(page: PageView, n: int, i: int)
    requires
        0 <= n <= page.dependencies.len(),
        0 <= i < merged_to(Seq::empty(), page, n).len(),
    ensures
        exists|j: int|
            0 <= j < n && (contributes(#[trigger] page.dependencies[j], page.versions) matches Some(
                v,
            ) && v.krate == merged_to(Seq::empty(), page, n)[i].crate_name),
    decreases n,
{
    if n > 0 {
        let before = merged_to(Seq::empty(), page, n - 1);
        let edge = page.dependencies[n - 1];
        match contributes(edge, page.versions) {
            Some(v) => {
                lemma_recorded_names(before, v, i);
                let name = recorded(before, v)[i].crate_name;
                if name != v.krate {
                    let k = choose|k: int|
                        0 <= k < before.len() && (#[trigger] before[k]).crate_name == name;
                    lemma_listed_from_edges(page, n - 1, k);
                } else {
                    assert(contributes(page.dependencies[n - 1], page.versions) == Some(v));
                }
            },
            None => {
                lemma_listed_from_edges(page, n - 1, i);
            },
        }
    }
}

// ---- One crate ----------------------------------------------------------------

/// Which of the first `n` versions is the highest of a standing.
pub open spec fn best_to(versions: Seq<VersionView>, s: Standing, n: int) -> Option<int>
    decreases n,
{
    if n <= 0 {
        None
    } else {
        let prev = best_to(versions, s, n - 1);
        if standing(versions[n - 1]) == s && beats(versions[n - 1].num, num_at(versions, prev)) {
            Some(n - 1)
        } else {
            prev
        }
    }
}

/// The version number at a position.
pub open spec fn num_at(versions: Seq<VersionView>, at: Option<int>) -> Option<Seq<char>> {
    match at {
        Some(i) => Some(versions[i].num),
        None => None,
    }
}

/// Which version is the highest of a standing.
pub open spec fn best(versions: Seq<VersionView>, s: Standing) -> Option<int> {
    best_to(versions, s, versions.len() as int)
}

/// Which version a crate is described by: its highest stable one, or else its highest
/// pre-release, or else the first that is listed.
pub open spec fn described_by(versions: Seq<VersionView>) -> Option<int> {
    if best(versions, Standing::Stable) is Some {
        best(versions, Standing::Stable)
    } else if best(versions, Standing::Prerelease) is Some {
        best(versions, Standing::Prerelease)
    } else if versions.len() > 0 {
        Some(0)
    } else {
        None
    }
}

/// The first of two optional texts that is there.
pub open spec fn first_of(a: Option<Seq<char>>, b: Option<Seq<char>>) -> Option<Seq<char>> {
    if a is Some {
        a
    } else {
        b
    }
}

/// A crate as crates.io describes it.
pub open spec fn crate_plugin(c: CrateView) -> PluginView {
    let at = described_by(c.versions);
    PluginView {
        crate_name: c.name,
        latest: num_at(c.versions, best(c.versions, Standing::Stable)),
        latest_prerelease: num_at(c.versions, best(c.versions, Standing::Prerelease)),
        latest_yanked: num_at(c.versions, best(c.versions, Standing::Yanked)),
        description: match at {
            Some(i) => first_of(c.versions[i].description, c.description),
            None => c.description,
        },
        repository: match at {
            Some(i) => first_of(c.versions[i].repository, c.repository),
            None => c.repository,
        },
        bin_names: match at {
            Some(i) => c.versions[i].bin_names,
            None => Seq::empty(),
        },
        published_by: match at {
            Some(i) => c.versions[i].login,
            None => None,
        },
        downloads: c.downloads,
    }
}

/// The index of a version, in the model.
pub open spec fn index_view(o: Option<usize>) -> Option<int> {
    match o {
        Some(i) => Some(i as int),
        None => None,
    }
}

proof fn lemma_best_bound(versions: Seq<VersionView>, s: Standing, n: int)
    requires
        0 <= n <= versions.len(),
    ensures
        best_to(versions, s, n) matches Some(i) ==> 0 <= i < n,
    decreases n,
{
    if n > 0 {
        lemma_best_bound(versions, s, n - 1);
    }
}

/// A copy of the first of two optional texts that is there.
fn either(a: &Option<String>, b: &Option<String>) -> (r: Option<String>)
    ensures
        r.deep_view() == first_of(a.deep_view(), b.deep_view()),
{
    match a {
        Some(s) => Some(s.clone()),
        None => b.clone(),
    }
}

/// Builds a [`RegistryPlugin`] from what crates.io says of a crate. No version of the
/// crate ranks above the one that is named for its standing.
pub fn plugin_from_crate(response: &CrateResponse) -> (r: RegistryPlugin)
    ensures
        r.deep_view() == crate_plugin(response.deep_view()),
        forall|j: int|
            0 <= j < response.deep_view().versions.len() ==> tops(
                r.deep_view(),
                #[trigger] response.deep_view().versions[j],
            ),
{
    let ghost all = response.deep_view().versions;
    let mut latest: Option<Version> = None;
    let mut latest_prerelease: Option<Version> = None;
    let mut latest_yanked: Option<Version> = None;
    let mut stable_at: Option<usize> = None;
    let mut prerelease_at: Option<usize> = None;
    let mut i: usize = 0;
    while i < response.versions.len()
        invariant
            i <= response.versions.len(),
            all == response.deep_view().versions,
            all == response.versions.deep_view(),
            index_view(stable_at) == best_to(all, Standing::Stable, i as int),
            index_view(prerelease_at) == best_to(all, Standing::Prerelease, i as int),
            latest.deep_view() == num_at(all, best_to(all, Standing::Stable, i as int)),
            latest_prerelease.deep_view() == num_at(
                all,
                best_to(all, Standing::Prerelease, i as int),
            ),
            latest_yanked.deep_view() == num_at(all, best_to(all, Standing::Yanked, i as int)),
            forall|j: int|
                #![trigger all[j]]
                0 <= j < i && standing(all[j]) == Standing::Stable ==> capped(
                    latest.deep_view(),
                    all[j].num,
                ),
            forall|j: int|
                #![trigger all[j]]
                0 <= j < i && standing(all[j]) == Standing::Prerelease ==> capped(
                    latest_prerelease.deep_view(),
                    all[j].num,
                ),
            forall|j: int|
                #![trigger all[j]]
                0 <= j < i && standing(all[j]) == Standing::Yanked ==> capped(
                    latest_yanked.deep_view(),
                    all[j].num,
                ),
        decreases response.versions.len() - i,
    {
        let version = &response.versions[i];
        assert(all[i as int] == version.deep_view());
        if let Some(parsed) = Version::parse(version.num.as_str()) {
            if version.yanked {
                let ghost old_place = latest_yanked.deep_view();
                contend(&mut latest_yanked, &parsed);
            } else if parsed.is_prerelease() {
                if contend(&mut latest_prerelease, &parsed) {
                    prerelease_at = Some(i);
                }
            } else if contend(&mut latest, &parsed) {
                stable_at = Some(i);
            }
        }
        i += 1;
    }
    proof {
        lemma_best_bound(all, Standing::Stable, i as int);
        lemma_best_bound(all, Standing::Prerelease, i as int);
    }
    // With no release to install, the crate is described by the first version listed,
    // so that its binaries are known all the same.
    let at: Option<usize> = match stable_at {
        Some(k) => Some(k),
        None => match prerelease_at {
            Some(k) => Some(k),
            None => if response.versions.len() > 0 {
                Some(0)
            } else {
                None
            },
        },
    };
    let r = match at {
        Some(k) => {
            let best = &response.versions[k];
            assert(all[k as int] == best.deep_view());
            RegistryPlugin {
                crate_name: response.name.clone(),
                latest,
                latest_prerelease,
                latest_yanked,
                description: either(&best.description, &response.description),
                repository: either(&best.repository, &response.repository),
                bin_names: copy_strings(&best.bin_names),
                published_by: best.login.clone(),
                downloads: response.downloads,
            }
        },
        None => {
            let bin_names: Vec<String> = Vec::new();
            assert(bin_names.deep_view() =~= Seq::<Seq<char>>::empty());
            RegistryPlugin {
                crate_name: response.name.clone(),
                latest,
                latest_prerelease,
                latest_yanked,
                description: response.description.clone(),
                repository: response.repository.clone(),
                bin_names,
                published_by: None,
                downloads: response.downloads,
            }
        },
    };
    assert forall|j: int| 0 <= j < all.len() implies tops(r.deep_view(), #[trigger] all[j]) by {}
    r
}

// ---- The client ---------------------------------------------------------------

/// The API root in force: what the environment names, unless that is blank.
pub open spec fn root_in_force(configured: Option<Seq<char>>) -> Seq<char> {
    match configured {
        Some(v) => if text::trimmed(v).len() > 0 {
            v
        } else {
            "https://crates.io/api/v1"@
        },
        None => "https://crates.io/api/v1"@,
    }
}

/// The API root in force, given the value of `$CLOVE_REGISTRY_URL`.
pub fn api_root(configured: Option<&str>) -> (r: String)
    ensures
        r@ == root_in_force(text::opt_view(configured)),
{
    match configured {
        Some(v) => if text::trim(v).is_empty() {
            "https://crates.io/api/v1".to_owned()
        } else {
            v.to_owned()
        },
        None => "https://crates.io/api/v1".to_owned(),
    }
}

/// A crates.io client bound to an API root and a transport.
pub struct CratesIo<'a, F: Fetch + ?Sized> {
    pub fetch: &'a F,
    pub api_root: String,
}

/// The address of a crate's document.
pub open spec fn crate_url(root: Seq<char>, name: Seq<char>) -> Seq<char> {
    root + "/crates/"@ + name
}

/// The address of a page of a crate's reverse dependencies.
pub open spec fn page_url(root: Seq<char>, of: Seq<char>, page: nat) -> Seq<char> {
    root + "/crates/"@ + of + "/reverse_dependencies?per_page=100&page="@ + text::decimal(page)
}

/// The model of an answer that carries a plugin.
pub open spec fn probe_view(r: Result<Option<RegistryPlugin>, FetchError>) -> Result<
    Option<PluginView>,
    FetchErrorView,
> {
    match r {
        Ok(Some(p)) => Ok(Some(p.deep_view())),
        Ok(None) => Ok(None),
        Err(e) => Err(e.deep_view()),
    }
}

/// A document that is JSON but not what was asked for.
pub open spec fn misshapen() -> FetchErrorView {
    FetchErrorView::Decode("the document does not have the expected shape"@)
}

fn misshapen_error() -> (r: FetchError)
    ensures
        r.deep_view() == misshapen(),
{
    FetchError::Decode("the document does not have the expected shape".to_owned())
}

/// The plugin that a crate's document describes, or why it cannot be read.
pub open spec fn crate_body(body: Seq<char>) -> Result<PluginView, FetchErrorView> {
    match json_parsed(body) {
        Ok(doc) => match crate_doc(doc) {
            Some(c) => Ok(crate_plugin(c)),
            None => Err(misshapen()),
        },
        Err(e) => Err(FetchErrorView::Decode(e)),
    }
}

/// What a name probe makes of the transport's answer: absence stays absence, and a
/// failure stays a failure.
pub open spec fn probed(answer: Result<Option<Seq<char>>, FetchErrorView>) -> Result<
    Option<PluginView>,
    FetchErrorView,
> {
    match answer {
        Ok(Some(body)) => match crate_body(body) {
            Ok(p) => Ok(Some(p)),
            Err(e) => Err(e),
        },
        Ok(None) => Ok(None),
        Err(e) => Err(e),
    }
}

/// What a name probe makes of the transport's answer.
pub fn probe_answer(answer: Result<Option<String>, FetchError>) -> (r: Result<
    Option<RegistryPlugin>,
    FetchError,
>)
    ensures
        probe_view(r) == probed(answer_view(answer)),
{
    match answer {
        Ok(Some(body)) => match Json::parse(body.as_str()) {
            Ok(doc) => match read_crate(&doc) {
                Some(c) => Ok(Some(plugin_from_crate(&c))),
                None => Err(misshapen_error()),
            },
            Err(e) => Err(FetchError::Decode(e)),
        },
        Ok(None) => Ok(None),
        Err(e) => Err(e),
    }
}

/// The crates that were found, of the answers to some probes.
pub open spec fn hits(answers: Seq<Option<PluginView>>) -> Seq<PluginView>
    decreases answers.len(),
{
    if answers.len() == 0 {
        Seq::empty()
    } else {
        match answers.last() {
            Some(p) => hits(answers.drop_last()).push(p),
            None => hits(answers.drop_last()),
        }
    }
}

/// "Not published" and "could not be found out" are never confused: a probe reports
/// absence exactly when the transport did.
pub proof fn law_absence_is_not_failure(answer: Result<Option<Seq<char>>, FetchErrorView>)
    ensures
        probed(answer) == Ok::<Option<PluginView>, FetchErrorView>(None) <==> answer == Ok::<
            Option<Seq<char>>,
            FetchErrorView,
        >(None),
        answer is Err ==> probed(answer) is Err,
{
}

/// The page that a document holds, or why it cannot be read.
pub open spec fn page_body(body: Seq<char>) -> Result<PageView, FetchErrorView> {
    match json_parsed(body) {
        Ok(doc) => match page_doc(doc) {
            Some(p) => Ok(p),
            None => Err(misshapen()),
        },
        Err(e) => Err(FetchErrorView::Decode(e)),
    }
}

/// Reads a page of reverse dependencies.
pub fn parse_page(body: &str) -> (r: Result<ReverseDepsResponse, FetchError>)
    ensures
        match r {
            Ok(p) => page_body(body@) == Ok::<PageView, FetchErrorView>(p.deep_view()),
            Err(e) => page_body(body@) == Err::<PageView, FetchErrorView>(e.deep_view()),
        },
{
    match Json::parse(body) {
        Ok(doc) => match read_page(&doc) {
            Some(p) => Ok(p),
            None => Err(misshapen_error()),
        },
        Err(e) => Err(FetchError::Decode(e)),
    }
}

/// The number of rows on the first `n` pages.
pub open spec fn rows_to(pages: Seq<PageView>, n: int) -> nat
    decreases n,
{
    if n <= 0 {
        0
    } else {
        rows_to(pages, n - 1) + pages[n - 1].dependencies.len()
    }
}

/// Is page number `page` the last, given its rows, the rows seen so far and the
/// server's total: a short page, a reached total, or the bound on pages?
pub open spec fn is_last(rows: nat, seen: nat, total: nat, page: nat) -> bool {
    rows < PER_PAGE || seen >= total || page >= MAX_PAGES
}

/// Is this the last page to ask for?
pub fn last_page(rows: usize, seen: u128, total: u64, page: usize) -> (r: bool)
    ensures
        r == is_last(rows as nat, seen as nat, total as nat, page as nat),
{
    rows < PER_PAGE || seen >= total as u128 || page >= MAX_PAGES
}

/// Does the walk end with the `n`th page?
pub open spec fn ends_at(pages: Seq<PageView>, n: int) -> bool {
    is_last(
        pages[n - 1].dependencies.len(),
        rows_to(pages, n),
        pages[n - 1].total as nat,
        n as nat,
    )
}

/// Are these all the pages of a walk: it ends with the last of them, and with none
/// before?
pub open spec fn is_walk(pages: Seq<PageView>) -> bool {
    &&& 0 < pages.len() <= MAX_PAGES
    &&& ends_at(pages, pages.len() as int)
    &&& forall|n: int| 0 < n < pages.len() ==> !#[trigger] ends_at(pages, n)
}

/// Does the walk go on after these pages?
pub open spec fn goes_on(pages: Seq<PageView>) -> bool {
    &&& pages.len() < MAX_PAGES
    &&& forall|n: int| 0 < n <= pages.len() ==> !#[trigger] ends_at(pages, n)
}

/// The model of what asking for the reverse dependencies came to.
pub open spec fn dependents_view(
    r: Result<Option<Vec<RegistryPlugin>>, FetchError>,
) -> Result<Option<Seq<PluginView>>, FetchErrorView> {
    match r {
        Ok(Some(v)) => Ok(Some(v.deep_view())),
        Ok(None) => Ok(None),
        Err(e) => Err(e.deep_view()),
    }
}

/// The crates found on the first `n` pages of a walk.
pub open spec fn gathered_to(pages: Seq<PageView>, n: int) -> Seq<PluginView>
    decreases n,
{
    if n <= 0 {
        Seq::empty()
    } else {
        merged(gathered_to(pages, n - 1), pages[n - 1])
    }
}

/// The crates found on all pages of a walk.
pub open spec fn gathered(pages: Seq<PageView>) -> Seq<PluginView> {
    gathered_to(pages, pages.len() as int)
}

proof fn lemma_walk_prefix(a: Seq<PageView>, b: Seq<PageView>, n: int)
    requires
        0 <= n <= a.len(),
        n <= b.len(),
        a.take(n) == b.take(n),
    ensures
        gathered_to(a, n) == gathered_to(b, n),
        rows_to(a, n) == rows_to(b, n),
    decreases n,
{
    if n > 0 {
        assert(a.take(n - 1) =~= a.take(n).take(n - 1));
        assert(b.take(n - 1) =~= b.take(n).take(n - 1));
        lemma_walk_prefix(a, b, n - 1);
        assert(a[n - 1] == a.take(n)[n - 1]);
        assert(b[n - 1] == b.take(n)[n - 1]);
    }
}

impl<'a, F: Fetch + ?Sized> CratesIo<'a, F> {
    /// A client against the API root in force, given the value of
    /// `$CLOVE_REGISTRY_URL`.
    pub fn new(fetch: &'a F, configured: Option<&str>) -> (r: Self)
        ensures
            r.fetch == fetch,
            r.api_root@ == text::drop_back(root_in_force(text::opt_view(configured)), '/'),
    {
        let root = api_root(configured);
        Self::with_root(fetch, root.as_str())
    }

    /// A client against an API root, without the slashes that may end it.
    pub fn with_root(fetch: &'a F, api_root: &str) -> (r: Self)
        ensures
            r.fetch == fetch,
            r.api_root@ == text::drop_back(api_root@, '/'),
    {
        CratesIo { fetch, api_root: text::trim_end_matches(api_root, '/').to_owned() }
    }

    /// The address that a probe for `name` asks, which must be a legal crate name.
    pub fn crate_url(&self, name: &str) -> (r: String)
        requires
            is_crate_name(name@),
        ensures
            r@ == self::crate_url(self.api_root@, name@),
    {
        text::cat3(self.api_root.as_str(), "/crates/", name)
    }

    /// The address of a page of the reverse dependencies of `of`.
    pub fn page_url(&self, of: &str, page: usize) -> (r: String)
        ensures
            r@ == self::page_url(self.api_root@, of@, page as nat),
    {
        let n = text::decimal_of(page as u64);
        text::cat5(
            self.api_root.as_str(),
            "/crates/",
            of,
            "/reverse_dependencies?per_page=100&page=",
            n.as_str(),
        )
    }

    /// Can a probe for a name come to this? A name that is not legal is put into no address
    /// and does not exist.
    pub open spec fn may_find(
        &self,
        name: Seq<char>,
        end: Result<Option<PluginView>, FetchErrorView>,
    ) -> bool {
        if is_crate_name(name) {
            exists|answer: Result<Option<Seq<char>>, FetchErrorView>|
                {
                    &&& self.fetch.may_answer(self::crate_url(self.api_root@, name), answer)
                    &&& end == #[trigger] probed(answer)
                }
        } else {
            end == Ok::<Option<PluginView>, FetchErrorView>(None)
        }
    }

    /// Can probes for the first of these names, in their order, come to these answers?
    pub open spec fn answered(
        &self,
        names: Seq<Seq<char>>,
        answers: Seq<Option<PluginView>>,
    ) -> bool {
        &&& answers.len() <= names.len()
        &&& forall|i: int|
            0 <= i < answers.len() ==> self.may_find(names[i], Ok(#[trigger] answers[i]))
    }

    /// Can probes for these names stop at a failure, after these answers?
    pub open spec fn stopped(
        &self,
        names: Seq<Seq<char>>,
        answers: Seq<Option<PluginView>>,
        e: FetchErrorView,
    ) -> bool {
        &&& self.answered(names, answers)
        &&& answers.len() < names.len()
        &&& self.may_find(names[answers.len() as int], Err(e))
    }

    /// Probes for a crate by exact name. `Ok(None)` means that the crate does not
    /// exist; `Err` means that we could not find out. A name that is not legal
    /// cannot exist and is put into no address; otherwise the result is what
    /// [`probe_answer`] makes of whatever the transport answered.
    pub fn crate_exists(&self, name: &str) -> (r: Result<Option<RegistryPlugin>, FetchError>)
        ensures
            self.may_find(name@, probe_view(r)),
    {
        if validate_crate_name(name).is_err() {
            return Ok(None);
        }
        let url = self.crate_url(name);
        let answer = self.fetch.get(url.as_str());
        let ghost given = answer_view(answer);
        let r = probe_answer(answer);
        assert(probe_view(r) == probed(given));
        r
    }

    /// Can this page come of asking an address?
    pub open spec fn page_served(&self, url: Seq<char>, page: PageView) -> bool {
        exists|body: Seq<char>| #[trigger]
            self.fetch.may_answer(url, Ok(Some(body))) && page_body(body) == Ok::<
                PageView,
                FetchErrorView,
            >(page)
    }

    /// Can asking an address bring a document that is no page, for this reason?
    pub open spec fn page_garbled(&self, url: Seq<char>, e: FetchErrorView) -> bool {
        exists|body: Seq<char>| #[trigger]
            self.fetch.may_answer(url, Ok(Some(body))) && page_body(body) == Err::<
                PageView,
                FetchErrorView,
            >(e)
    }

    /// Did these pages come from the addresses that a walk over the reverse dependencies of
    /// `of` asks, one after the other?
    pub open spec fn served(&self, of: Seq<char>, pages: Seq<PageView>) -> bool {
        forall|n: int|
            0 <= n < pages.len() ==> self.page_served(
                self::page_url(self.api_root@, of, (n + 1) as nat),
                #[trigger] pages[n],
            )
    }

    /// Is this what a walk that has read `pages` comes to next, if it comes to no page?
    pub open spec fn breaks_off(
        &self,
        of: Seq<char>,
        pages: Seq<PageView>,
        end: Result<Option<Seq<PluginView>>, FetchErrorView>,
    ) -> bool {
        let url = self::page_url(self.api_root@, of, pages.len() + 1);
        &&& self.served(of, pages)
        &&& goes_on(pages)
        &&& match end {
            Ok(Some(_)) => false,
            Ok(None) => self.fetch.may_answer(url, Ok(None)),
            Err(e) => self.fetch.may_answer(url, Err(e)) || self.page_garbled(url, e),
        }
    }

    /// Can a walk over the reverse dependencies of `of` come to this?
    pub open spec fn may_gather(
        &self,
        of: Seq<char>,
        end: Result<Option<Seq<PluginView>>, FetchErrorView>,
    ) -> bool {
        match end {
            Ok(Some(plugins)) => strictly_ordered(plugins) && exists|pages: Seq<PageView>|
                #[trigger]
                is_walk(pages) && self.served(of, pages) && plugins == gathered(pages),
            _ => exists|pages: Seq<PageView>| #[trigger] self.breaks_off(of, pages, end),
        }
    }

    /// Every crate that depends on `of` (in practice, `clove-plugin`), ordered by
    /// name. `Ok(None)` means that `of` itself is not published — an **absent**
    /// registry, other than a published one without dependents. What is found is the join of
    /// the pages of one walk, each asked of its own address; a page that is not there, cannot
    /// be had or cannot be read ends the walk with that.
    pub fn reverse_dependents(&self, of: &str) -> (r: Result<
        Option<Vec<RegistryPlugin>>,
        FetchError,
    >)
        ensures
            self.may_gather(of@, dependents_view(r)),
    {
        let mut acc: Vec<RegistryPlugin> = Vec::new();
        let mut page: usize = 1;
        let mut seen: u128 = 0;
        let ghost mut pages: Seq<PageView> = Seq::empty();
        assert(acc.deep_view() =~= gathered(pages));
        loop
            invariant
                1 <= page <= MAX_PAGES,
                pages.len() == page - 1,
                seen == rows_to(pages, pages.len() as int),
                seen <= (page - 1) * usize::MAX,
                acc.deep_view() == gathered(pages),
                strictly_ordered(acc.deep_view()),
                forall|n: int| 0 < n <= pages.len() ==> !#[trigger] ends_at(pages, n),
                self.served(of@, pages),
            decreases MAX_PAGES - page,
        {
            let url = self.page_url(of, page);
            let body = match self.fetch.get(url.as_str()) {
                Ok(Some(body)) => body,
                Ok(None) => {
                    assert(self.breaks_off(of@, pages, Ok(None)));
                    return Ok(None);
                },
                Err(e) => {
                    assert(self.breaks_off(of@, pages, Err(e.deep_view())));
                    return Err(e);
                },
            };
            let parsed = match parse_page(body.as_str()) {
                Ok(p) => p,
                Err(e) => {
                    assert(self.page_garbled(url@, e.deep_view()));
                    assert(self.breaks_off(of@, pages, Err(e.deep_view())));
                    return Err(e);
                },
            };
            assert(self.page_served(url@, parsed.deep_view()));
            let rows: usize = parsed.dependencies.len();
            let total: u64 = parsed.total;
            let ghost before = pages;
            let ghost next = pages.push(parsed.deep_view());
            proof {
                assert((page - 1) * usize::MAX + usize::MAX <= 50 * 0xffff_ffff_ffff_ffff)
                    by (nonlinear_arith)
                    requires
                        1 <= page <= 50,
                ;
                assert(page * usize::MAX == (page - 1) * usize::MAX + usize::MAX)
                    by (nonlinear_arith);
                assert(next.take(before.len() as int) =~= before.take(before.len() as int));
                lemma_walk_prefix(next, before, before.len() as int);
                assert forall|n: int| 0 < n <= before.len() implies !#[trigger] ends_at(
                    next,
                    n,
                ) by {
                    assert(next.take(n) =~= before.take(n));
                    lemma_walk_prefix(next, before, n);
                    assert(!ends_at(before, n));
                }
            }
            seen = seen + rows as u128;
            merge_page(&mut acc, &parsed);
            proof {
                pages = next;
            }
            assert(acc.deep_view() == gathered(pages));
            if last_page(rows, seen, total, page) {
                assert(ends_at(pages, pages.len() as int));
                assert(is_walk(pages));
                return Ok(Some(acc));
            }
            page += 1;
        }
    }
}

// ---- What the registry's documents say ------------------------------------------

/// A release is read from under its own keys; what it leaves out is empty.
pub proof fn law_a_release_is_read_from_its_keys(doc: JsonView, s: Seq<char>, b: bool)
    ensures
        version_doc(doc) matches Some(v) ==> {
            &&& doc.member("num"@) == Some(JsonView::Text(s)) ==> v.num == s
            &&& doc.member("crate"@) == Some(JsonView::Text(s)) ==> v.krate == s
            &&& doc.member("description"@) == Some(JsonView::Text(s)) ==> v.description == Some(s)
            &&& doc.member("repository"@) == Some(JsonView::Text(s)) ==> v.repository == Some(s)
            &&& doc.member("yanked"@) == Some(JsonView::Bool(b)) ==> v.yanked == b
            &&& doc.member("yanked"@) is None ==> !v.yanked
            &&& doc.member("description"@) is None ==> v.description is None
            &&& doc.member("id"@) matches Some(n) ==> n.unsigned() == Some(v.id)
            &&& doc.member("downloads"@) matches Some(n) ==> n.unsigned() == Some(v.downloads)
            &&& doc.member("bin_names"@) matches Some(JsonView::Array(items)) ==> present_texts(
                items,
            ) == Some(v.bin_names)
            &&& doc.member("published_by"@) matches Some(by) ==> (by.member("login"@) == Some(
                JsonView::Text(s),
            ) && by is Object ==> v.login == Some(s))
            &&& doc.member("published_by"@) is None ==> v.login is None
        },
{
}

/// The names in a list are its texts, in order; a null is passed by.
pub proof fn law_present_texts_are_kept(items: Seq<JsonView>, s: Seq<char>)
    ensures
        present_texts(Seq::empty()) == Some(Seq::<Seq<char>>::empty()),
        present_texts(items) matches Some(names) ==> present_texts(items.push(JsonView::Text(s)))
            == Some(names.push(s)) && present_texts(items.push(JsonView::Null)) == Some(names),
        present_texts(items) is None ==> present_texts(items.push(JsonView::Text(s))) is None,
{
    assert(items.push(JsonView::Text(s)).drop_last() =~= items);
    assert(items.push(JsonView::Null).drop_last() =~= items);
}

/// A page has each dependency and each release that its document lists, in order, and the
/// total that it states.
pub proof fn law_a_page_is_read_from_its_keys(doc: JsonView, i: int)
    ensures
        page_doc(doc) matches Some(p) ==> {
            &&& doc.member("versions"@) matches Some(JsonView::Array(items)) ==> p.versions.len()
                == items.len() && (0 <= i < items.len() ==> version_doc(items[i]) == Some(
                p.versions[i],
            ))
            &&& doc.member("dependencies"@) matches Some(JsonView::Array(items))
                ==> p.dependencies.len() == items.len() && (0 <= i < items.len()
                ==> dependency_doc(items[i]) == Some(p.dependencies[i]))
            &&& doc.member("meta"@) matches Some(m) ==> (m.member("total"@) matches Some(n)
                ==> n.unsigned() == Some(p.total))
            &&& doc.member("meta"@) is None ==> p.total == 0
        },
        dependency_doc(doc) matches Some(d) ==> {
            &&& doc.member("version_id"@) matches Some(n) ==> n.unsigned() == Some(d.version_id)
            &&& doc.member("kind"@) matches Some(k) ==> k.text() == Some(d.kind)
        },
        crate_doc(doc) matches Some(c) ==> {
            &&& doc.member("crate"@) matches Some(k) && k.member("name"@) == Some(
                JsonView::Text(c.name),
            ) && (k.member("description"@) matches Some(JsonView::Text(s)) ==> c.description
                == Some(s)) && (k.member("repository"@) matches Some(JsonView::Text(s))
                ==> c.repository == Some(s)) && (k.member("downloads"@) matches Some(n)
                ==> n.unsigned() == Some(c.downloads))
            &&& doc.member("versions"@) matches Some(JsonView::Array(items)) ==> c.versions.len()
                == items.len() && (0 <= i < items.len() ==> version_doc(items[i]) == Some(
                c.versions[i],
            ))
        },
{
}

/// A release stands by what it is: one that cannot be read as a version, one that was yanked,
/// a pre-release, or a stable one.
pub proof fn law_a_release_stands_by_what_it_is(v: VersionView)
    ensures
        standing(v) == Standing::Stable <==> is_semver(v.num) && !v.yanked && !has_prerelease(
            v.num,
        ),
        standing(v) == Standing::Prerelease <==> is_semver(v.num) && !v.yanked && has_prerelease(
            v.num,
        ),
        standing(v) == Standing::Yanked <==> is_semver(v.num) && v.yanked,
        standing(v) == Standing::Unparsed <==> !is_semver(v.num),
{
}

proof fn lemma_best_stands(versions: Seq<VersionView>, s: Standing, n: int)
    requires
        0 <= n <= versions.len(),
    ensures
        best_to(versions, s, n) matches Some(i) ==> 0 <= i < n && standing(versions[i]) == s,
        best_to(versions, s, n) is None ==> forall|i: int|
            0 <= i < n ==> standing(#[trigger] versions[i]) != s,
    decreases n,
{
    if n > 0 {
        lemma_best_stands(versions, s, n - 1);
    }
}

/// The releases of a crate are among those it published, each of its own kind, and there is one
/// of a kind wherever a release of that kind was published.
pub proof fn law_a_release_is_one_that_was_published(c: CrateView)
    ensures
        crate_plugin(c).latest matches Some(v) ==> exists|i: int|
            0 <= i < c.versions.len() && (#[trigger] c.versions[i]).num == v && standing(
                c.versions[i],
            ) == Standing::Stable,
        crate_plugin(c).latest_prerelease matches Some(v) ==> exists|i: int|
            0 <= i < c.versions.len() && (#[trigger] c.versions[i]).num == v && standing(
                c.versions[i],
            ) == Standing::Prerelease,
        crate_plugin(c).latest_yanked matches Some(v) ==> exists|i: int|
            0 <= i < c.versions.len() && (#[trigger] c.versions[i]).num == v && standing(
                c.versions[i],
            ) == Standing::Yanked,
        crate_plugin(c).latest is None ==> forall|i: int|
            0 <= i < c.versions.len() ==> standing(#[trigger] c.versions[i]) != Standing::Stable,
        crate_plugin(c).latest_prerelease is None ==> forall|i: int|
            0 <= i < c.versions.len() ==> standing(#[trigger] c.versions[i])
                != Standing::Prerelease,
        crate_plugin(c).latest_yanked is None ==> forall|i: int|
            0 <= i < c.versions.len() ==> standing(#[trigger] c.versions[i]) != Standing::Yanked,
{
    let n = c.versions.len() as int;
    lemma_best_stands(c.versions, Standing::Stable, n);
    lemma_best_stands(c.versions, Standing::Prerelease, n);
    lemma_best_stands(c.versions, Standing::Yanked, n);
}

/// A crate keeps its own name and downloads. What is said of it is what its best release says,
/// and only where that says nothing, what the crate does.
pub proof fn law_a_crate_is_described_by_its_best_release(c: CrateView)
    ensures
        crate_plugin(c).crate_name == c.name,
        crate_plugin(c).downloads == c.downloads,
        c.versions.len() == 0 ==> crate_plugin(c).bin_names.len() == 0 && crate_plugin(
            c,
        ).description == c.description && crate_plugin(c).published_by is None,
        c.versions.len() > 0 ==> exists|i: int|
            {
                &&& 0 <= i < c.versions.len()
                &&& crate_plugin(c).latest is Some ==> crate_plugin(c).latest == Some(
                    (#[trigger] c.versions[i]).num,
                ) && standing(c.versions[i]) == Standing::Stable
                &&& crate_plugin(c).latest is None && crate_plugin(c).latest_prerelease is Some
                    ==> crate_plugin(c).latest_prerelease == Some(c.versions[i].num)
                &&& crate_plugin(c).bin_names == c.versions[i].bin_names
                &&& crate_plugin(c).published_by == c.versions[i].login
                &&& c.versions[i].description is Some ==> crate_plugin(c).description
                    == c.versions[i].description
                &&& c.versions[i].description is None ==> crate_plugin(c).description
                    == c.description
                &&& c.versions[i].repository is Some ==> crate_plugin(c).repository
                    == c.versions[i].repository
                &&& c.versions[i].repository is None ==> crate_plugin(c).repository
                    == c.repository
            },
{
    let n = c.versions.len() as int;
    lemma_best_stands(c.versions, Standing::Stable, n);
    lemma_best_stands(c.versions, Standing::Prerelease, n);
    if c.versions.len() > 0 {
        let i = described_by(c.versions)->0;
        assert(0 <= i < c.versions.len());
        assert(c.versions[i] == c.versions[i]);
    }
}

/// A dependency counts only as a normal one, and for the release that it names.
pub proof fn law_a_dependency_counts_for_its_release(d: DependencyView, versions: Seq<VersionView>)
    ensures
        contributes(d, versions) matches Some(v) ==> d.kind == "normal"@ && v.id == d.version_id
            && versions.contains(v) && v.krate.len() > 0,
        d.kind == "normal"@ && contributes(d, versions) is None ==> (joined_version(
            versions,
            d.version_id,
        ) matches Some(v) ==> v.krate.len() == 0),
        joined_version(versions, d.version_id) is None ==> forall|i: int|
            0 <= i < versions.len() ==> (#[trigger] versions[i]).id != d.version_id,
{
    lemma_joined_is_there(versions, d.version_id);
}

proof fn lemma_joined_is_there(versions: Seq<VersionView>, id: u64)
    ensures
        joined_version(versions, id) matches Some(v) ==> v.id == id && versions.contains(v),
        joined_version(versions, id) is None ==> forall|i: int|
            0 <= i < versions.len() ==> (#[trigger] versions[i]).id != id,
    decreases versions.len(),
{
    if versions.len() > 0 {
        let init = versions.drop_last();
        lemma_joined_is_there(init, id);
        if versions.last().id == id {
            assert(versions[versions.len() - 1].id == id);
        } else if let Some(v) = joined_version(init, id) {
            let k = choose|k: int| 0 <= k < init.len() && init[k] == v;
            assert(versions[k] == v);
        } else {
            assert forall|i: int| 0 <= i < versions.len() implies (#[trigger] versions[i]).id
                != id by {
                if i < init.len() {
                    assert(init[i] == versions[i]);
                }
            }
        }
    }
}

/// One more release of a crate leaves its name, never lowers its downloads, and is what the
/// crate is described by exactly when it leads.
pub proof fn law_a_release_describes_a_crate_when_it_leads(p: PluginView, v: VersionView)
    ensures
        absorbed(p, v).crate_name == p.crate_name,
        absorbed(p, v).downloads >= p.downloads && absorbed(p, v).downloads >= v.downloads,
        absorbed(p, v).downloads == p.downloads || absorbed(p, v).downloads == v.downloads,
        is_new_best(p, v) ==> absorbed(p, v).description == v.description && absorbed(
            p,
            v,
        ).repository == v.repository && absorbed(p, v).bin_names == v.bin_names && absorbed(
            p,
            v,
        ).published_by == v.login,
        !is_new_best(p, v) ==> absorbed(p, v).description == p.description && absorbed(
            p,
            v,
        ).repository == p.repository && absorbed(p, v).bin_names == p.bin_names && absorbed(
            p,
            v,
        ).published_by == p.published_by,
        standing(v) == Standing::Stable && p.latest is None ==> is_new_best(p, v),
        standing(v) == Standing::Prerelease && p.latest is Some ==> !is_new_best(p, v),
        standing(v) == Standing::Yanked && (p.latest is Some || p.latest_prerelease is Some)
            ==> !is_new_best(p, v),
        standing(v) == Standing::Stable && p.latest is None ==> absorbed(p, v).latest == Some(
            v.num,
        ),
        standing(v) != Standing::Stable ==> absorbed(p, v).latest == p.latest,
        standing(v) != Standing::Prerelease ==> absorbed(p, v).latest_prerelease
            == p.latest_prerelease,
        standing(v) != Standing::Yanked ==> absorbed(p, v).latest_yanked == p.latest_yanked,
{
}

/// Recording a release touches only the crate that it is of: every other stays as it is.
pub proof fn law_recording_leaves_other_crates(acc: Seq<PluginView>, v: VersionView, q: PluginView)
    requires
        q.crate_name != v.krate,
    ensures
        acc.contains(q) <==> recorded(acc, v).contains(q),
        exists|i: int|
            0 <= i < recorded(acc, v).len() && (#[trigger] recorded(acc, v)[i]).crate_name
                == v.krate,
    decreases acc.len(),
{
    let r = recorded(acc, v);
    if acc.len() == 0 {
        assert(r[0].crate_name == v.krate);
    } else if acc[0].crate_name == v.krate {
        assert(r[0].crate_name == v.krate);
        let rest = acc.drop_first();
        if acc.contains(q) {
            let k = choose|k: int| 0 <= k < acc.len() && acc[k] == q;
            assert(r[k] == q);
        }
        if r.contains(q) {
            let k = choose|k: int| 0 <= k < r.len() && r[k] == q;
            assert(acc[k] == q);
        }
    } else if text::precedes(v.krate, acc[0].crate_name) {
        assert(r[0].crate_name == v.krate);
        if acc.contains(q) {
            let k = choose|k: int| 0 <= k < acc.len() && acc[k] == q;
            assert(r[k + 1] == q);
        }
        if r.contains(q) {
            let k = choose|k: int| 0 <= k < r.len() && r[k] == q;
            assert(acc[k - 1] == q);
        }
    } else {
        let rest = acc.drop_first();
        let after = recorded(rest, v);
        law_recording_leaves_other_crates(rest, v, q);
        let i = choose|i: int| 0 <= i < after.len() && (#[trigger] after[i]).crate_name == v.krate;
        assert(r[i + 1] == after[i]);
        if acc.contains(q) {
            let k = choose|k: int| 0 <= k < acc.len() && acc[k] == q;
            if k > 0 {
                assert(rest[k - 1] == q);
                let m = choose|m: int| 0 <= m < after.len() && after[m] == q;
                assert(r[m + 1] == q);
            } else {
                assert(r[0] == q);
            }
        }
        if r.contains(q) {
            let k = choose|k: int| 0 <= k < r.len() && r[k] == q;
            if k > 0 {
                assert(after[k - 1] == q);
                let m = choose|m: int| 0 <= m < rest.len() && rest[m] == q;
                assert(acc[m + 1] == q);
            } else {
                assert(acc[0] == q);
            }
        }
    }
}

/// A crate and each of its pages have addresses of their own, under the root in force.
pub proof fn law_addresses_tell_pages_apart(
    root: Seq<char>,
    name: Seq<char>,
    page: nat,
    other: nat,
)
    ensures
        text::begins(crate_url(root, name), root) && text::ends(
            crate_url(root, name),
            "/crates/"@ + name,
        ),
        text::begins(page_url(root, name, page), crate_url(root, name)),
        text::ends(page_url(root, name, page), "&page="@ + text::decimal(page)),
        page_url(root, name, page) == page_url(root, name, other) ==> page == other,
        text::trimmed(root).len() > 0 ==> root_in_force(Some(root)) == root,
        text::trimmed(root).len() == 0 ==> root_in_force(Some(root)) == root_in_force(None),
{
    let u = crate_url(root, name);
    let back = "/crates/"@ + name;
    assert(u.take(root.len() as int) =~= root);
    assert(u.skip(u.len() - back.len()) =~= back);
    let p = page_url(root, name, page);
    assert(p.take(u.len() as int) =~= u);
    reveal_strlit("/reverse_dependencies?per_page=100&page=");
    reveal_strlit("&page=");
    let q = "/reverse_dependencies?per_page=100&page="@;
    let end = "&page="@ + text::decimal(page);
    assert(q.skip(q.len() - 6) =~= "&page="@);
    assert(p.skip(p.len() - end.len()) =~= end);
    if p == page_url(root, name, other) {
        let front = u + q;
        assert(p =~= front + text::decimal(page));
        assert(page_url(root, name, other) =~= front + text::decimal(other));
        assert(p.skip(front.len() as int) =~= text::decimal(page));
        assert(p.skip(front.len() as int) =~= text::decimal(other));
        text::law_decimal_reads_back(page);
        text::law_decimal_reads_back(other);
    }
}

/// The walk goes on while pages are full and rows are left, up to the last page that is asked
/// for.
pub proof fn law_the_walk_ends_when_all_is_seen(rows: nat, seen: nat, total: nat, page: nat)
    ensures
        seen >= total ==> is_last(rows, seen, total, page),
        rows < PER_PAGE ==> is_last(rows, seen, total, page),
        page >= MAX_PAGES ==> is_last(rows, seen, total, page),
        rows >= PER_PAGE && seen < total && page < MAX_PAGES ==> !is_last(rows, seen, total, page),
{
}

/// The crates that answered are the hits, in order.
pub proof fn law_every_answer_is_a_hit(answers: Seq<Option<PluginView>>, p: PluginView)
    ensures
        hits(Seq::empty()).len() == 0,
        hits(answers.push(Some(p))) == hits(answers).push(p),
        hits(answers.push(None)) == hits(answers),
{
    assert(answers.push(Some(p)).drop_last() =~= answers);
    assert(answers.push(None).drop_last() =~= answers);
}

/// Every page is gathered, in order: one more page is merged into what the pages before it
/// gave, and of a page one more dependency into what those before it gave.
pub proof fn law_every_page_is_gathered(pages: Seq<PageView>, page: PageView)
    ensures
        gathered(Seq::empty()).len() == 0,
        gathered(pages.push(page)) == merged(gathered(pages), page),
{
    let all = pages.push(page);
    lemma_gathered_of_prefix(pages, all, pages.len() as int);
    assert(all[all.len() - 1] == page);
}

proof fn lemma_gathered_of_prefix(a: Seq<PageView>, b: Seq<PageView>, n: int)
    requires
        0 <= n <= a.len(),
        n <= b.len(),
        forall|i: int| 0 <= i < n ==> a[i] == b[i],
    ensures
        gathered_to(a, n) == gathered_to(b, n),
    decreases n,
{
    if n > 0 {
        lemma_gathered_of_prefix(a, b, n - 1);
        assert(a[n - 1] == b[n - 1]);
    }
}

/// One more dependency of a page adds its release, if it counts, and nothing else.
pub proof fn law_every_dependency_is_merged(
    acc: Seq<PluginView>,
    deps: Seq<DependencyView>,
    d: DependencyView,
    versions: Seq<VersionView>,
    total: u64,
)
    ensures
        ({
            let before = merged(acc, PageView { dependencies: deps, versions, total });
            let after = merged(acc, PageView { dependencies: deps.push(d), versions, total });
            match contributes(d, versions) {
                Some(v) => after == recorded(before, v),
                None => after == before,
            }
        }),
        merged(acc, PageView { dependencies: Seq::empty(), versions, total }) == acc,
{
    let a = PageView { dependencies: deps, versions, total };
    let b = PageView { dependencies: deps.push(d), versions, total };
    lemma_merged_of_prefix(acc, a, b, deps.len() as int);
    assert(b.dependencies[deps.len() as int] == d);
}

proof fn lemma_merged_of_prefix(acc: Seq<PluginView>, a: PageView, b: PageView, n: int)
    requires
        0 <= n <= a.dependencies.len(),
        n <= b.dependencies.len(),
        a.versions == b.versions,
        forall|i: int| 0 <= i < n ==> a.dependencies[i] == b.dependencies[i],
    ensures
        merged_to(acc, a, n) == merged_to(acc, b, n),
    decreases n,
{
    if n > 0 {
        lemma_merged_of_prefix(acc, a, b, n - 1);
        assert(a.dependencies[n - 1] == b.dependencies[n - 1]);
    }
}

/// A body is read as the document that it holds, and refused where it holds none or one of
/// another shape.
pub proof fn law_a_body_is_read_as_its_document(body: Seq<char>, doc: JsonView, c: CrateView, p: PageView)
    ensures
        json_parsed(body) == Ok::<JsonView, Seq<char>>(doc) && crate_doc(doc) == Some(c)
            ==> crate_body(body) == Ok::<PluginView, FetchErrorView>(crate_plugin(c)),
        json_parsed(body) == Ok::<JsonView, Seq<char>>(doc) && page_doc(doc) == Some(p)
            ==> page_body(body) == Ok::<PageView, FetchErrorView>(p),
        json_parsed(body) == Ok::<JsonView, Seq<char>>(doc) && crate_doc(doc) is None
            ==> crate_body(body) is Err,
        json_parsed(body) == Ok::<JsonView, Seq<char>>(doc) && page_doc(doc) is None ==> page_body(
            body,
        ) is Err,
        json_parsed(body) matches Err(e) ==> crate_body(body) == Err::<PluginView, FetchErrorView>(
            FetchErrorView::Decode(e),
        ) && page_body(body) == Err::<PageView, FetchErrorView>(FetchErrorView::Decode(e)),
        crate_body(body) matches Ok(x) ==> probed(Ok(Some(body))) == Ok::<
            Option<PluginView>,
            FetchErrorView,
        >(Some(x)),
{
}

} // verus!
