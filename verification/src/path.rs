//! Paths, carried as text and extended by one component at a time.

use vstd::prelude::*;

use crate::text;

verus! {

/// Can `part` be put behind a directory as one component: not empty, not a step that stays
/// or goes up, without any character that some platform reads as a separator, and without a
/// drive in front?
pub open spec fn is_component(part: Seq<char>) -> bool {
    &&& part.len() > 0
    &&& !(part.len() == 1 && part[0] == '.')
    &&& !(part.len() == 2 && part[0] == '.' && part[1] == '.')
    &&& !part.contains('/')
    &&& !part.contains('\\')
    &&& part.len() < 2 || part[1] != ':'
}

/// Is `part` one component of a path?
pub fn component(part: &str) -> (r: bool)
    ensures
        r == is_component(part@),
{
    let n = part.unicode_len();
    if n == 0 || text::has_char(part, '/') || text::has_char(part, '\\') {
        return false;
    }
    let first = part.get_char(0);
    if n == 1 {
        return first != '.';
    }
    let second = part.get_char(1);
    second != ':' && !(n == 2 && first == '.' && second == '.')
}

/// Can `suffix` end a file's name: it has no separator of any platform?
pub open spec fn is_suffix(suffix: Seq<char>) -> bool {
    !suffix.contains('/') && !suffix.contains('\\')
}

/// Is `path` the directory `base` extended by `part`? The separator between them
/// is the platform's own, and there is none behind a `base` that is empty or ends
/// in one. (Of a network or verbatim path, which begins with two backslashes, only
/// the last component is known.)
pub open spec fn extends(base: Seq<char>, part: Seq<char>, path: Seq<char>) -> bool {
    if text::begins(base, seq!['\\', '\\']) {
        text::ends(path, part)
    } else if base.len() == 0 || base.last() == '/' {
        path == base + part
    } else if base.last() == '\\' || base.last() == ':' {
        path == base + part || path == base.push('/') + part || path == base.push('\\') + part
    } else {
        path == base.push('/') + part || path == base.push('\\') + part
    }
}

/// `camino::Utf8Path::join`. With a single relative component, the platform's
/// separator is put between the two, unless the directory is empty or already ends
/// in one. Behind a backslash, and behind the colon of a bare drive, platforms
/// differ on whether one is needed; a path that begins with two backslashes may be
/// rewritten on the way. Nothing is said of a part that is more than one component:
/// what counts as absolute, and so replaces the directory, is the platform's affair.
#[verifier::external_body]
pub(crate) fn join(base: &str, part: &str) -> (r: String)
    ensures
        is_component(part@) ==> extends(base@, part@, r@),
{
    camino::Utf8Path::new(base).join(part).into_string()
}

/// Does some platform read this character as a separator?
pub open spec fn is_separator(c: char) -> bool {
    c == '/' || c == '\\'
}

/// Is `base` a directory that every platform writes back as it is: not empty, neither a root
/// nor a drive, no network path, and without a separator or a step that stays at its end?
pub open spec fn is_plain_dir(base: Seq<char>) -> bool {
    let n = base.len() as int;
    &&& n > 0
    &&& !is_separator(base[n - 1])
    &&& base[n - 1] != ':'
    &&& !(n >= 2 && base[n - 1] == '.' && is_separator(base[n - 2]))
    &&& !(n >= 2 && is_separator(base[0]) && is_separator(base[1]))
}

/// `rest` below the directory `base`, with a slash between them.
pub open spec fn below(base: Seq<char>, rest: Seq<char>) -> Seq<char> {
    base + seq!['/'] + rest
}

/// Can `r` be the parent of `path`? It is a proper front part of it. A single component has
/// the empty path as its parent, one behind a plain directory has that directory, one behind
/// the root has the root; and neither the empty path nor the root has any. (Of other paths,
/// such as those with steps that stay in them, only the first is known: platforms differ.)
pub open spec fn is_parent(path: Seq<char>, r: Option<Seq<char>>) -> bool {
    &&& r matches Some(p) ==> p.len() < path.len() && path.take(p.len() as int) == p
    &&& path.len() == 0 || path == seq!['/'] ==> r is None
    &&& is_component(path) ==> r == Some(Seq::<char>::empty())
    &&& path.len() > 1 && path[0] == '/' && is_component(path.skip(1)) ==> r == Some(seq!['/'])
    &&& forall|base: Seq<char>, part: Seq<char>|
        path == #[trigger] below(base, part) && is_plain_dir(base) && is_component(part) ==> r
            == Some(base)
}

/// `camino::Utf8Path::parent`: the path without its final component, if there is one. What
/// is claimed of it is [`is_parent`].
#[verifier::external_body]
pub(crate) fn parent(path: &str) -> (r: Option<&str>)
    ensures
        is_parent(path@, text::opt_view(r)),
{
    camino::Utf8Path::new(path).parent().map(camino::Utf8Path::as_str)
}

/// The parent of a component that was put behind a plain directory with a slash is that
/// directory.
pub proof fn law_the_parent_of_what_was_joined(
    base: Seq<char>,
    part: Seq<char>,
    r: Option<Seq<char>>,
)
    requires
        is_plain_dir(base),
        is_component(part),
        is_parent(base.push('/') + part, r),
    ensures
        r == Some(base),
{
    assert(base.push('/') + part =~= below(base, part));
}

/// Is a path made of plain components alone, with one slash between them?
pub open spec fn is_plain_rest(rest: Seq<char>) -> bool {
    forall|i: int|
        0 <= i < text::pieces(rest, '/').len() ==> is_component(
            #[trigger] text::pieces(rest, '/')[i],
        )
}

/// Can `r` be what is left of `path` behind the directory `base`? It is a part of the path.
/// Behind a plain directory it is what stands there, and behind the path itself it is empty. A
/// relative path is not below the root. (Of other paths nothing more is known: what counts as
/// the same component is the platform's affair.)
pub open spec fn is_stripped(path: Seq<char>, base: Seq<char>, r: Option<Seq<char>>) -> bool {
    &&& r matches Some(s) ==> text::occurs(path, s)
    &&& path == base ==> r == Some(Seq::<char>::empty())
    &&& forall|rest: Seq<char>|
        path == #[trigger] below(base, rest) && is_plain_dir(base) && is_plain_rest(rest) ==> r
            == Some(rest)
    &&& base.len() > 0 && base[0] == '/' && path.len() > 0 && !is_separator(path[0]) ==> r is None
}

/// `camino::Utf8Path::strip_prefix`: what is left of a path behind a directory, if it is below
/// it. What is claimed of it is [`is_stripped`].
#[verifier::external_body]
pub(crate) fn strip_prefix<'a>(path: &'a str, base: &str) -> (r: Option<&'a str>)
    ensures
        is_stripped(path@, base@, text::opt_view(r)),
{
    camino::Utf8Path::new(path).strip_prefix(base).ok().map(camino::Utf8Path::as_str)
}

} // verus!
