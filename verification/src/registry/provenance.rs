//! What clove installed, and where it came from — read from cargo's own
//! bookkeeping in `<clove-home>/.crates2.json`.

use vstd::prelude::*;

use crate::json::{entries, lemma_object_shape, text_list, Json, JsonView};
use crate::json_text::json_parsed;
use crate::order::{by_name, sort_named, sorted_by, Named};
use crate::registry::{copy_strings, is_crate_name, validate_crate_name};
use crate::text;

verus! {

/// Where an installed package came from, parsed from its cargo package id.
#[derive(Debug, PartialEq, Eq)]
pub enum Source {
    /// `registry+https://github.com/rust-lang/crates.io-index`
    Registry,
    /// `git+<url>` with the optional `?tag=`/`?rev=`/`?branch=` and `#<sha>`.
    Git { url: String, reference: Option<String> },
    /// `path+file://…` — a local build, e.g. `cargo install --path`.
    Path(String),
    /// A source of any other shape, carried verbatim.
    Other(String),
}

/// The model of a [`Source`].
pub enum SourceView {
    Registry,
    Git { url: Seq<char>, reference: Option<Seq<char>> },
    Path(Seq<char>),
    Other(Seq<char>),
}

impl DeepView for Source {
    type V = SourceView;

    open spec fn deep_view(&self) -> SourceView {
        match *self {
            Source::Registry => SourceView::Registry,
            Source::Git { url, reference } => SourceView::Git {
                url: url@,
                reference: reference.deep_view(),
            },
            Source::Path(p) => SourceView::Path(p@),
            Source::Other(s) => SourceView::Other(s@),
        }
    }
}

impl SourceView {
    /// A short label for people.
    pub open spec fn shown(self) -> Seq<char> {
        match self {
            SourceView::Registry => "crates.io"@,
            SourceView::Git { url, reference } => match reference {
                Some(r) => "git "@ + url + " ("@ + r + ")"@,
                None => "git "@ + url,
            },
            SourceView::Path(p) => "path "@ + p,
            SourceView::Other(s) => s,
        }
    }
}

impl Source {
    /// A short human label for the install listing.
    pub fn label(&self) -> (r: String)
        ensures
            r@ == self.deep_view().shown(),
    {
        match self {
            Source::Registry => "crates.io".to_owned(),
            Source::Git { url, reference } => match reference {
                Some(r) => text::cat5("git ", url.as_str(), " (", r.as_str(), ")"),
                None => text::cat2("git ", url.as_str()),
            },
            Source::Path(path) => text::cat2("path ", path.as_str()),
            Source::Other(raw) => raw.clone(),
        }
    }
}

impl Clone for Source {
    fn clone(&self) -> (r: Source)
        ensures
            r.deep_view() == self.deep_view(),
    {
        match self {
            Source::Registry => Source::Registry,
            Source::Git { url, reference } => Source::Git {
                url: url.clone(),
                reference: reference.clone(),
            },
            Source::Path(p) => Source::Path(p.clone()),
            Source::Other(s) => Source::Other(s.clone()),
        }
    }
}

/// One package installed under the clove home.
#[derive(Debug, PartialEq, Eq)]
pub struct Installed {
    /// The cargo **package** name — what `cargo uninstall` takes, which is not
    /// necessarily any of the binary names.
    pub package: String,
    pub version: String,
    pub source: Source,
    /// The binaries the package installed, as filenames on disk.
    pub bins: Vec<String>,
}

/// The model of an [`Installed`].
pub struct InstalledView {
    pub package: Seq<char>,
    pub version: Seq<char>,
    pub source: SourceView,
    pub bins: Seq<Seq<char>>,
}

impl DeepView for Installed {
    type V = InstalledView;

    open spec fn deep_view(&self) -> InstalledView {
        InstalledView {
            package: self.package@,
            version: self.version@,
            source: self.source.deep_view(),
            bins: self.bins.deep_view(),
        }
    }
}

impl Clone for Installed {
    fn clone(&self) -> (r: Installed)
        ensures
            r.deep_view() == self.deep_view(),
    {
        Installed {
            package: self.package.clone(),
            version: self.version.clone(),
            source: self.source.clone(),
            bins: copy_strings(&self.bins),
        }
    }
}

impl Named for Installed {
    open spec fn label(v: InstalledView) -> Seq<char> {
        v.package
    }

    fn name(&self) -> (r: &str) {
        self.package.as_str()
    }
}

/// A binary's name without the platform's executable suffix, which may be absent.
pub open spec fn stem(bin: Seq<char>, exe_suffix: Seq<char>) -> Seq<char> {
    if exe_suffix.len() == 0 {
        bin
    } else {
        match text::before(bin, exe_suffix) {
            Some(s) => s,
            None => bin,
        }
    }
}

/// The subcommand that a binary dispatches as: what follows `clove-`, if anything
/// does.
pub open spec fn subcommand(bin: Seq<char>, exe_suffix: Seq<char>) -> Option<Seq<char>> {
    match text::behind(stem(bin, exe_suffix), "clove-"@) {
        Some(rest) => if rest.len() > 0 {
            Some(rest)
        } else {
            None
        },
        None => None,
    }
}

/// The subcommand a binary filename dispatches as: `clove-sync-github.exe` →
/// `sync-github`, with `exe_suffix` the platform's suffix. `None` when the file is
/// not a clove plugin binary at all. The suffix is tolerated rather than required.
pub fn bare_subcommand_with<'a>(bin: &'a str, exe_suffix: &str) -> (r: Option<&'a str>)
    ensures
        text::opt_view(r) == subcommand(bin@, exe_suffix@),
{
    let stem: &str = if exe_suffix.is_empty() {
        bin
    } else {
        match text::strip_suffix(bin, exe_suffix) {
            Some(s) => s,
            None => bin,
        }
    };
    match text::strip_prefix(stem, "clove-") {
        Some(rest) => if rest.is_empty() {
            None
        } else {
            Some(rest)
        },
        None => None,
    }
}

impl InstalledView {
    /// Does the package own a binary that dispatches as `name`?
    pub open spec fn provides(self, name: Seq<char>, exe_suffix: Seq<char>) -> bool {
        exists|i: int|
            0 <= i < self.bins.len() && subcommand(#[trigger] self.bins[i], exe_suffix) == Some(
                name,
            )
    }
}

impl Installed {
    /// Does this package own a binary that dispatches as `name`? Compared against
    /// the *stripped* subcommand name (`sync-github`, not `clove-sync-github`),
    /// whether or not the recorded filename carries `exe_suffix`.
    pub fn provides_subcommand(&self, name: &str, exe_suffix: &str) -> (r: bool)
        ensures
            r == self.deep_view().provides(name@, exe_suffix@),
    {
        let ghost bins = self.deep_view().bins;
        let mut i: usize = 0;
        while i < self.bins.len()
            invariant
                i <= self.bins.len(),
                bins == self.bins.deep_view(),
                bins == self.deep_view().bins,
                forall|j: int|
                    0 <= j < i ==> subcommand(#[trigger] bins[j], exe_suffix@) != Some(name@),
            decreases self.bins.len() - i,
        {
            assert(bins[i as int] == self.bins@[i as int]@);
            match bare_subcommand_with(self.bins[i].as_str(), exe_suffix) {
                Some(bare) => if text::same(bare, name) {
                    assert(subcommand(bins[i as int], exe_suffix@) == Some(name@));
                    return true;
                },
                None => {},
            }
            i += 1;
        }
        false
    }
}

// ---- Package ids --------------------------------------------------------------

/// The source that a package id names.
pub open spec fn source_named(s: Seq<char>) -> SourceView {
    if text::begins(s, "registry+"@) || text::begins(s, "sparse+"@) {
        SourceView::Registry
    } else if text::begins(s, "git+"@) {
        let rest = s.skip("git+"@.len() as int);
        let located = match text::cut(rest, '#') {
            Some((front, _)) => front,
            None => rest,
        };
        match text::cut(located, '?') {
            Some((url, query)) => SourceView::Git { url, reference: Some(query) },
            None => SourceView::Git { url: located, reference: None },
        }
    } else if text::begins(s, "path+"@) {
        SourceView::Path(s.skip("path+"@.len() as int))
    } else {
        SourceView::Other(s)
    }
}

/// Reads the source of a package id: a registry, `git+<url>[?<reference>][#<sha>]`,
/// `path+<path>`, or something else.
pub fn parse_source(source: &str) -> (r: Source)
    ensures
        r.deep_view() == source_named(source@),
{
    if text::starts_with(source, "registry+") || text::starts_with(source, "sparse+") {
        return Source::Registry;
    }
    if let Some(rest) = text::strip_prefix(source, "git+") {
        let located: &str = match text::split_once(rest, '#') {
            Some((front, _)) => front,
            None => rest,
        };
        return match text::split_once(located, '?') {
            Some((url, query)) => Source::Git {
                url: url.to_owned(),
                reference: Some(query.to_owned()),
            },
            None => Source::Git { url: located.to_owned(), reference: None },
        };
    }
    if let Some(path) = text::strip_prefix(source, "path+") {
        return Source::Path(path.to_owned());
    }
    Source::Other(source.to_owned())
}

/// The package, version and source of a package id `"<name> <version> (<source>)"`.
pub open spec fn package_id(s: Seq<char>) -> Option<(Seq<char>, Seq<char>, SourceView)> {
    match text::cut(s, ' ') {
        Some((name, rest)) => match text::cut(rest, ' ') {
            Some((version, tail)) => match text::behind(tail, "("@) {
                Some(open) => match text::before(open, ")"@) {
                    Some(source) => if name.len() > 0 && version.len() > 0 && is_crate_name(name) {
                        Some((name, version, source_named(source)))
                    } else {
                        None
                    },
                    None => None,
                },
                None => None,
            },
            None => None,
        },
        None => None,
    }
}

/// The model of a parsed package id.
pub open spec fn id_view(r: Option<(String, String, Source)>) -> Option<
    (Seq<char>, Seq<char>, SourceView),
> {
    match r {
        Some((n, v, s)) => Some((n@, v@, s.deep_view())),
        None => None,
    }
}

/// Parses a cargo package id. One that does not have the shape, or whose name is no
/// legal crate name, is skipped rather than guessed at: the name is handed to cargo.
pub fn parse_pkgid(pkgid: &str) -> (r: Option<(String, String, Source)>)
    ensures
        id_view(r) == package_id(pkgid@),
{
    let (name, rest) = match text::split_once(pkgid, ' ') {
        Some(parts) => parts,
        None => return None,
    };
    let (version, tail) = match text::split_once(rest, ' ') {
        Some(parts) => parts,
        None => return None,
    };
    let open: &str = match text::strip_prefix(tail, "(") {
        Some(s) => s,
        None => return None,
    };
    let source: &str = match text::strip_suffix(open, ")") {
        Some(s) => s,
        None => return None,
    };
    if name.is_empty() || version.is_empty() {
        return None;
    }
    if validate_crate_name(name).is_err() {
        return None;
    }
    Some((name.to_owned(), version.to_owned(), parse_source(source)))
}

/// A package read from cargo's bookkeeping is always safe to hand to cargo.
pub proof fn law_recorded_packages_have_legal_names(s: Seq<char>)
    ensures
        package_id(s) matches Some((name, _, _)) ==> is_crate_name(name),
{
}

// ---- The bookkeeping file -----------------------------------------------------

/// The file that cargo keeps under an install root.
pub const CRATES2: &'static str = ".crates2.json";

/// The largest bookkeeping file that is read.
pub const MAX_CRATES2_BYTES: u64 = 16777216;

/// The binaries that one entry of the file lists; none if it lists none.
pub open spec fn entry_bins(entry: JsonView) -> Option<Seq<Seq<char>>> {
    match entry {
        JsonView::Object(_) => match entry.member("bins"@) {
            Some(v) => text_list(v),
            None => Some(Seq::empty()),
        },
        _ => None,
    }
}

/// The packages of the entries whose key is a package id, in the entries' order.
pub open spec fn packages(e: Seq<(Seq<char>, JsonView)>) -> Seq<InstalledView>
    decreases e.len(),
{
    if e.len() == 0 {
        Seq::empty()
    } else {
        let init = packages(e.drop_last());
        match package_id(e.last().0) {
            Some((package, version, source)) => init.push(
                InstalledView {
                    package,
                    version,
                    source,
                    bins: entry_bins(e.last().1)->0,
                },
            ),
            None => init,
        }
    }
}

/// The packages that a bookkeeping file records. One that does not have the file's
/// shape throughout records nothing.
pub open spec fn recorded(doc: JsonView) -> Seq<InstalledView> {
    match doc {
        JsonView::Object(_) => match doc.member("installs"@) {
            Some(JsonView::Object(e)) => if forall|i: int|
                0 <= i < e.len() ==> entry_bins((#[trigger] e[i]).1) is Some {
                sorted_by(packages(e), by_name::<Installed>())
            } else {
                Seq::empty()
            },
            _ => Seq::empty(),
        },
        _ => Seq::empty(),
    }
}

fn bins_of(entry: &Json) -> (r: Option<Vec<String>>)
    ensures
        r.deep_view() == entry_bins(entry.shape()),
{
    match entry {
        Json::Object(_) => match entry.get("bins") {
            Some(v) => v.as_text_list(),
            None => {
                let none: Vec<String> = Vec::new();
                assert(none.deep_view() =~= Seq::<Seq<char>>::empty());
                Some(none)
            },
        },
        _ => None,
    }
}

/// The packages that an already parsed bookkeeping file records, ordered by name.
pub fn installed_in(doc: &Json) -> (r: Vec<Installed>)
    ensures
        r.deep_view() == recorded(doc.shape()),
{
    let none: Vec<Installed> = Vec::new();
    assert(none.deep_view() =~= Seq::<InstalledView>::empty());
    let installs: &Vec<(String, Json)> = match doc {
        Json::Object(_) => match doc.get("installs") {
            Some(Json::Object(map)) => map,
            _ => return none,
        },
        _ => return none,
    };
    proof {
        lemma_object_shape(*installs);
    }
    let ghost e = entries(installs@);
    let mut out: Vec<Installed> = Vec::new();
    let mut i: usize = 0;
    assert(out.deep_view() =~= packages(e.take(0)));
    while i < installs.len()
        invariant
            i <= installs.len(),
            e == entries(installs@),
            doc.shape() is Object,
            doc.shape().member("installs"@) == Some(JsonView::Object(e)),
            none.deep_view() == Seq::<InstalledView>::empty(),
            forall|j: int| 0 <= j < i ==> entry_bins((#[trigger] e[j]).1) is Some,
            out.deep_view() == packages(e.take(i as int)),
        decreases installs.len() - i,
    {
        assert(e[i as int] == (installs@[i as int].0@, installs@[i as int].1.shape()));
        let bins = match bins_of(&installs[i].1) {
            Some(bins) => bins,
            None => {
                assert(entry_bins(e[i as int].1) is None);
                return none;
            },
        };
        assert(e.take(i + 1).drop_last() =~= e.take(i as int));
        if let Some((package, version, source)) = parse_pkgid(installs[i].0.as_str()) {
            let ghost before = out.deep_view();
            let one = Installed { package, version, source, bins };
            let ghost v = one.deep_view();
            out.push(one);
            assert(out.deep_view() =~= before.push(v));
        }
        i += 1;
    }
    assert(e.take(i as int) =~= e);
    sort_named(out)
}

/// The packages that the bookkeeping file of a home directory records. `size` is the
/// file's length and `raw` its text, as far as either could be had: without a
/// readable file of reasonable length, nothing was installed.
pub fn installed_under(size: Option<u64>, raw: Option<&str>) -> (r: Vec<Installed>)
    ensures
        r.deep_view() == under(size, text::opt_view(raw)),
{
    let none: Vec<Installed> = Vec::new();
    assert(none.deep_view() =~= Seq::<InstalledView>::empty());
    if let Some(n) = size {
        if n > MAX_CRATES2_BYTES {
            return none;
        }
    }
    match raw {
        Some(raw) => match Json::parse(raw) {
            Ok(doc) => installed_in(&doc),
            Err(_) => none,
        },
        None => none,
    }
}

/// What [`installed_under`] finds.
pub open spec fn under(size: Option<u64>, raw: Option<Seq<char>>) -> Seq<InstalledView> {
    if size matches Some(n) && n > MAX_CRATES2_BYTES {
        Seq::empty()
    } else {
        match raw {
            Some(raw) => match json_parsed(raw) {
                Ok(doc) => recorded(doc),
                Err(_) => Seq::empty(),
            },
            None => Seq::empty(),
        }
    }
}

/// The first of the packages that owns a binary dispatching as `name`.
pub open spec fn owner(
    all: Seq<InstalledView>,
    name: Seq<char>,
    exe_suffix: Seq<char>,
) -> Option<InstalledView>
    decreases all.len(),
{
    if all.len() == 0 {
        None
    } else if all[0].provides(name, exe_suffix) {
        Some(all[0])
    } else {
        owner(all.drop_first(), name, exe_suffix)
    }
}

proof fn lemma_owner_at(all: Seq<InstalledView>, name: Seq<char>, exe_suffix: Seq<char>, n: int)
    requires
        0 <= n <= all.len(),
        forall|j: int| 0 <= j < n ==> !(#[trigger] all[j]).provides(name, exe_suffix),
        n < all.len() ==> all[n].provides(name, exe_suffix),
    ensures
        owner(all, name, exe_suffix) == (if n < all.len() {
            Some(all[n])
        } else {
            None
        }),
    decreases n,
{
    if n > 0 {
        assert forall|j: int| 0 <= j < n - 1 implies !(#[trigger] all.drop_first()[j]).provides(
            name,
            exe_suffix,
        ) by {
            assert(all.drop_first()[j] == all[j + 1]);
        }
        lemma_owner_at(all.drop_first(), name, exe_suffix, n - 1);
    }
}

/// Finds the package owning the binary that dispatches as `name`.
pub fn find_by_subcommand<'a>(
    installed: &'a Vec<Installed>,
    name: &str,
    exe_suffix: &str,
) -> (r: Option<&'a Installed>)
    ensures
        match r {
            Some(i) => owner(installed.deep_view(), name@, exe_suffix@) == Some(i.deep_view()),
            None => owner(installed.deep_view(), name@, exe_suffix@) is None,
        },
{
    let ghost all = installed.deep_view();
    let mut i: usize = 0;
    while i < installed.len()
        invariant
            i <= installed.len(),
            all == installed.deep_view(),
            forall|j: int| 0 <= j < i ==> !(#[trigger] all[j]).provides(name@, exe_suffix@),
        decreases installed.len() - i,
    {
        assert(all[i as int] == installed@[i as int].deep_view());
        if installed[i].provides_subcommand(name, exe_suffix) {
            proof {
                lemma_owner_at(all, name@, exe_suffix@, i as int);
            }
            return Some(&installed[i]);
        }
        i += 1;
    }
    proof {
        lemma_owner_at(all, name@, exe_suffix@, i as int);
    }
    None
}

// ---- Reading what cargo recorded ------------------------------------------------

/// A command's file is clove's name and the command, with the platform's ending or without.
pub proof fn law_a_binary_dispatches_as_its_command(sub: Seq<char>, exe_suffix: Seq<char>)
    requires
        sub.len() > 0,
    ensures
        subcommand("clove-"@ + sub + exe_suffix, exe_suffix) == Some(sub),
        subcommand("clove-"@, Seq::empty()) is None,
{
    let s = "clove-"@ + sub + exe_suffix;
    let stem_text = "clove-"@ + sub;
    if exe_suffix.len() == 0 {
        assert(s =~= stem_text);
    } else {
        assert(s.skip(s.len() - exe_suffix.len()) =~= exe_suffix);
        assert(s.take(s.len() - exe_suffix.len()) =~= stem_text);
    }
    assert(stem_text.take("clove-"@.len() as int) =~= "clove-"@);
    assert(stem_text.skip("clove-"@.len() as int) =~= sub);
    let e = "clove-"@;
    assert(e.take(e.len() as int) =~= e);
    assert(e.skip(e.len() as int) =~= Seq::<char>::empty());
}

/// A source that cargo recorded is read by its kind: a registry, a repository with its
/// reference and without the commit behind it, a directory, or anything else as it stands.
pub proof fn law_a_source_is_read_by_its_kind(
    url: Seq<char>,
    query: Seq<char>,
    commit: Seq<char>,
    rest: Seq<char>,
)
    requires
        !url.contains('#'),
        !url.contains('?'),
        !query.contains('#'),
    ensures
        source_named("registry+"@ + rest) is Registry,
        source_named("sparse+"@ + rest) is Registry,
        source_named("path+"@ + rest) == SourceView::Path(rest),
        source_named("git+"@ + (url.push('#') + commit)) == (SourceView::Git {
            url,
            reference: None,
        }),
        source_named("git+"@ + ((url.push('?') + query).push('#') + commit)) == (SourceView::Git {
            url,
            reference: Some(query),
        }),
        source_named("git+"@ + url) == (SourceView::Git { url, reference: None }),
{
    reveal_strlit("registry+");
    reveal_strlit("sparse+");
    reveal_strlit("path+");
    reveal_strlit("git+");
    lemma_front("registry+"@, rest);
    lemma_front("sparse+"@, rest);
    lemma_front("path+"@, rest);
    assert(("path+"@ + rest)[0] == 'p');
    assert(("path+"@ + rest).take(9)[0] == 'p' || rest.len() < 4);
    assert(!text::begins("path+"@ + rest, "registry+"@)) by {
        assert("registry+"@[0] == 'r');
    }
    assert(!text::begins("path+"@ + rest, "sparse+"@)) by {
        assert("sparse+"@[0] == 's');
    }
    assert(!text::begins("path+"@ + rest, "git+"@)) by {
        assert("git+"@[0] == 'g');
    }
    lemma_git(url.push('#') + commit);
    lemma_git((url.push('?') + query).push('#') + commit);
    lemma_git(url);
    text::law_a_text_is_cut_at_the_first(url, '#', commit);
    text::law_a_text_is_cut_at_the_first(url, '?', query);
    let both = url.push('?') + query;
    assert(!both.contains('#')) by {
        if both.contains('#') {
            let k = choose|k: int| 0 <= k < both.len() && both[k] == '#';
            if k < url.len() {
                assert(url[k] == '#');
            } else {
                assert(query[k - url.len() - 1] == '#');
            }
        }
    }
    text::law_a_text_is_cut_at_the_first(both, '#', commit);
}

proof fn lemma_front(a: Seq<char>, b: Seq<char>)
    ensures
        text::begins(a + b, a),
        (a + b).skip(a.len() as int) == b,
{
    assert((a + b).take(a.len() as int) =~= a);
    assert((a + b).skip(a.len() as int) =~= b);
}

proof fn lemma_git(rest: Seq<char>)
    ensures
        text::begins("git+"@ + rest, "git+"@),
        ("git+"@ + rest).skip("git+"@.len() as int) == rest,
        !text::begins("git+"@ + rest, "registry+"@),
        !text::begins("git+"@ + rest, "sparse+"@),
{
    reveal_strlit("registry+");
    reveal_strlit("sparse+");
    reveal_strlit("git+");
    lemma_front("git+"@, rest);
    let s = "git+"@ + rest;
    assert(s[0] == 'g');
    assert("registry+"@[0] == 'r' && "sparse+"@[0] == 's');
    if text::begins(s, "registry+"@) {
        assert(s.take(9)[0] == s[0]);
    }
    if text::begins(s, "sparse+"@) {
        assert(s.take(7)[0] == s[0]);
    }
}

/// What cargo recorded of a package is read back: its name, its version and its source.
pub proof fn law_a_recorded_package_is_read_back(
    name: Seq<char>,
    version: Seq<char>,
    source: Seq<char>,
)
    requires
        is_crate_name(name),
        version.len() > 0,
        !version.contains(' '),
    ensures
        package_id(name.push(' ') + (version.push(' ') + ("("@ + source + ")"@))) == Some(
            (name, version, source_named(source)),
        ),
{
    crate::registry::law_accepted_names_are_the_legal_ones(name);
    crate::registry::law_accepted_names_are_inert(name);
    let tail = "("@ + source + ")"@;
    text::law_a_text_is_cut_at_the_first(name, ' ', version.push(' ') + tail);
    text::law_a_text_is_cut_at_the_first(version, ' ', tail);
    let open = source + ")"@;
    assert(tail =~= "("@ + open);
    lemma_front("("@, open);
    assert(open.skip(open.len() - ")"@.len()) =~= ")"@);
    assert(open.take(open.len() - ")"@.len()) =~= source);
}

/// Where a package comes from is shown with its address and its reference.
pub proof fn law_a_source_is_shown(url: Seq<char>, r: Seq<char>)
    ensures
        (SourceView::Git { url, reference: Some(r) }).shown() == "git "@ + url + " ("@ + r + ")"@,
        (SourceView::Git { url, reference: None }).shown() == "git "@ + url,
        SourceView::Path(url).shown() == "path "@ + url,
        SourceView::Other(url).shown() == url,
        SourceView::Registry.shown() == "crates.io"@,
{
}

/// Every legal record is a package with its binaries, in order; a record that is not legal is
/// passed by.
pub proof fn law_every_recorded_package_is_listed(
    e: Seq<(Seq<char>, JsonView)>,
    id: Seq<char>,
    entry: JsonView,
)
    ensures
        packages(Seq::empty()).len() == 0,
        package_id(id) is None ==> packages(e.push((id, entry))) == packages(e),
        package_id(id) matches Some((package, version, source)) ==> {
            let all = packages(e.push((id, entry)));
            &&& all.len() == packages(e).len() + 1 && all.drop_last() == packages(e)
            &&& all.last().package == package && all.last().version == version
            &&& all.last().source == source
            &&& entry_bins(entry) matches Some(bins) ==> all.last().bins == bins
        },
{
    assert(e.push((id, entry)).drop_last() =~= e);
    if let Some((package, version, source)) = package_id(id) {
        assert(packages(e.push((id, entry))).drop_last() =~= packages(e));
    }
}

/// What is installed is what the file records, sorted by name; a file that is too large, is
/// missing or cannot be read records nothing.
pub proof fn law_what_is_installed_is_what_is_recorded(
    size: Option<u64>,
    raw: Seq<char>,
    doc: JsonView,
    e: Seq<(Seq<char>, JsonView)>,
)
    ensures
        size matches Some(n) ==> (n > MAX_CRATES2_BYTES ==> under(size, Some(raw)).len() == 0),
        under(size, None).len() == 0,
        json_parsed(raw) is Err ==> under(size, Some(raw)).len() == 0,
        (size matches Some(n) ==> n <= MAX_CRATES2_BYTES) && json_parsed(raw) == Ok::<
            JsonView,
            Seq<char>,
        >(doc) ==> under(size, Some(raw)) == recorded(doc),
        doc.member("installs"@) == Some(JsonView::Object(e)) && (forall|i: int|
            0 <= i < e.len() ==> entry_bins((#[trigger] e[i]).1) is Some) ==> recorded(
            doc,
        ).to_multiset() == packages(e).to_multiset() && crate::order::in_order(
            recorded(doc),
            by_name::<Installed>(),
        ),
        doc.member("installs"@) is None ==> recorded(doc).len() == 0,
{
    crate::order::law_sorted_is_an_ordered_rearrangement(packages(e), by_name::<Installed>());
}

/// The owner of a command is the first package that provides it; there is one wherever a
/// package does.
pub proof fn law_the_owner_of_a_command_provides_it(
    all: Seq<InstalledView>,
    name: Seq<char>,
    exe_suffix: Seq<char>,
)
    ensures
        owner(all, name, exe_suffix) matches Some(i) ==> i.provides(name, exe_suffix)
            && all.contains(i),
        owner(all, name, exe_suffix) is None ==> forall|k: int|
            0 <= k < all.len() ==> !(#[trigger] all[k]).provides(name, exe_suffix),
    decreases all.len(),
{
    if all.len() > 0 {
        let rest = all.drop_first();
        law_the_owner_of_a_command_provides_it(rest, name, exe_suffix);
        if all[0].provides(name, exe_suffix) {
            assert(all.contains(all[0]));
        } else if let Some(i) = owner(rest, name, exe_suffix) {
            let k = choose|k: int| 0 <= k < rest.len() && rest[k] == i;
            assert(all[k + 1] == i);
        } else {
            assert forall|k: int| 0 <= k < all.len() implies !(#[trigger] all[k]).provides(
                name,
                exe_suffix,
            ) by {
                if k > 0 {
                    assert(rest[k - 1] == all[k]);
                }
            }
        }
    }
}

} // verus!
