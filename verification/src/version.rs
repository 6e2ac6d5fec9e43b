//! Published version numbers, ordered as `semver` orders them.

use vstd::prelude::*;

use crate::text;

verus! {

/// Does `semver::Version::parse` accept `s`?
pub uninterp spec fn is_semver(s: Seq<char>) -> bool;

/// Does `semver::Version` order the version written `a` above the one written `b`?
pub uninterp spec fn semver_greater(a: Seq<char>, b: Seq<char>) -> bool;

/// Does the version written `s` carry a pre-release part: a hyphen in front of
/// which no plus sign stands?
pub open spec fn has_prerelease(s: Seq<char>) -> bool {
    exists|i: int|
        0 <= i < s.len() && #[trigger] s[i] == '-' && !s.take(i).contains('+')
}

/// `semver::Version::parse`, rendered back by the version's `Display`. The two are
/// inverse: a version number has one spelling only (no leading zeros, and the
/// pre-release and build parts are kept as written), so the text that comes back
/// is the one that went in. No version is greater than itself.
#[verifier::external_body]
fn semver_text(text: &str) -> (r: Option<String>)
    ensures
        r is Some <==> is_semver(text@),
        r matches Some(t) ==> t@ == text@ && !semver_greater(t@, t@),
{
    semver::Version::parse(text).ok().map(|v| v.to_string())
}

/// The `>` of `semver::Version`. It is a strict total order on the spellings that
/// parse: it holds one way at most between two versions, it holds one way between
/// versions that are spelled differently, and it is transitive.
#[verifier::external_body]
fn semver_newer(a: &str, b: &str) -> (r: bool)
    requires
        is_semver(a@),
        is_semver(b@),
    ensures
        r == semver_greater(a@, b@),
        r ==> !semver_greater(b@, a@),
        r ==> a@ != b@,
        !r && a@ != b@ ==> semver_greater(b@, a@),
        r ==> forall|c: Seq<char>|
            is_semver(c) && #[trigger] semver_greater(b@, c) ==> semver_greater(a@, c),
        r ==> forall|c: Seq<char>|
            is_semver(c) && #[trigger] semver_greater(c, a@) ==> semver_greater(c, b@),
{
    match (semver::Version::parse(a), semver::Version::parse(b)) {
        (Ok(x), Ok(y)) => x > y,
        _ => false,
    }
}

/// `semver::Prerelease::is_empty` on the pre-release part of a parsed version. The
/// part is there exactly when a hyphen follows the three numbers, which hold
/// digits and dots only; a hyphen behind the plus sign belongs to the build part.
#[verifier::external_body]
fn semver_is_prerelease(text: &str) -> (r: bool)
    requires
        is_semver(text@),
    ensures
        r == has_prerelease(text@),
{
    semver::Version::parse(text).is_ok_and(|v| !v.pre.is_empty())
}

/// A version number. Its model is its spelling.
#[derive(Debug, PartialEq, Eq)]
pub struct Version {
    text: String,
}

impl Version {
    #[verifier::type_invariant]
    spec fn well_formed(self) -> bool {
        is_semver(self.text@) && !semver_greater(self.text@, self.text@)
    }
}

impl View for Version {
    type V = Seq<char>;

    closed spec fn view(&self) -> Seq<char> {
        self.text@
    }
}

impl DeepView for Version {
    type V = Seq<char>;

    open spec fn deep_view(&self) -> Seq<char> {
        self@
    }
}

impl Clone for Version {
    fn clone(&self) -> (r: Version)
        ensures
            r@ == self@,
    {
        proof {
            use_type_invariant(self);
        }
        Version { text: self.text.clone() }
    }
}

impl Version {
    /// Reads a version number.
    pub fn parse(text: &str) -> (r: Option<Version>)
        ensures
            r is Some <==> is_semver(text@),
            r matches Some(v) ==> v@ == text@,
    {
        match semver_text(text) {
            Some(text) => Some(Version { text }),
            None => None,
        }
    }

    /// The version as it is written.
    pub fn as_str(&self) -> (r: &str)
        ensures
            r@ == self@,
            is_semver(self@),
            !semver_greater(self@, self@),
    {
        proof {
            use_type_invariant(self);
        }
        self.text.as_str()
    }

    /// Is this version greater than `other`?
    pub fn newer_than(&self, other: &Version) -> (r: bool)
        ensures
            r == semver_greater(self@, other@),
            is_semver(self@),
            is_semver(other@),
            r ==> !semver_greater(other@, self@),
            r ==> self@ != other@,
            !r && self@ != other@ ==> semver_greater(other@, self@),
            r ==> forall|c: Seq<char>|
                is_semver(c) && #[trigger] semver_greater(other@, c) ==> semver_greater(self@, c),
            r ==> forall|c: Seq<char>|
                is_semver(c) && #[trigger] semver_greater(c, self@) ==> semver_greater(c, other@),
    {
        proof {
            use_type_invariant(self);
            use_type_invariant(other);
        }
        semver_newer(self.text.as_str(), other.text.as_str())
    }

    /// Do two versions have the same spelling?
    pub fn same_as(&self, other: &Version) -> (r: bool)
        ensures
            r == (self@ == other@),
    {
        text::same(self.text.as_str(), other.text.as_str())
    }

    /// Is this a pre-release?
    pub fn is_prerelease(&self) -> (r: bool)
        ensures
            r == has_prerelease(self@),
    {
        proof {
            use_type_invariant(self);
        }
        semver_is_prerelease(self.text.as_str())
    }
}

/// A version is a pre-release when a dash stands in it, and not only in what is said of the
/// build.
pub proof fn law_a_dash_makes_a_prerelease(core: Seq<char>, rest: Seq<char>)
    ensures
        !core.contains('+') ==> has_prerelease(core.push('-') + rest),
        !core.contains('-') ==> !has_prerelease(core) && !has_prerelease(core.push('+') + rest),
{
    let s = core.push('-') + rest;
    if !core.contains('+') {
        assert(s[core.len() as int] == '-');
        assert(s.take(core.len() as int) =~= core);
    }
    let t = core.push('+') + rest;
    if !core.contains('-') {
        if has_prerelease(core) {
            let i = choose|i: int|
                0 <= i < core.len() && #[trigger] core[i] == '-' && !core.take(i).contains('+');
            assert(core.contains(core[i]));
        }
        if has_prerelease(t) {
            let i = choose|i: int|
                0 <= i < t.len() && #[trigger] t[i] == '-' && !t.take(i).contains('+');
            if i < core.len() {
                assert(t[i] == core[i]);
                assert(core.contains(core[i]));
            } else {
                assert(t[core.len() as int] == '+');
                assert(i > core.len());
                assert(t.take(i)[core.len() as int] == '+');
            }
        }
    }
}

} // verus!
