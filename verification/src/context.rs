//! Where a command finds its repository.

use vstd::prelude::*;

use crate::error::{CloveError, ErrorView};
use crate::path;
use crate::text;

verus! {

/// Everything about the repository that a command acts on.
#[derive(Debug, PartialEq, Eq)]
pub struct Ctx {
    /// The `.clove` directory.
    pub clove_dir: String,
    /// The repository root (the directory containing `.clove/`).
    pub root: String,
    /// The `.clove/issues` directory.
    pub issues_dir: String,
    /// The (possibly absent) `.clove/index.db` file.
    pub db_path: String,
    /// The configured prefix of the item ids.
    pub id_prefix: String,
}

/// The model of a [`Ctx`].
pub struct CtxView {
    pub clove_dir: Seq<char>,
    pub root: Seq<char>,
    pub issues_dir: Seq<char>,
    pub db_path: Seq<char>,
    pub id_prefix: Seq<char>,
}

impl DeepView for Ctx {
    type V = CtxView;

    open spec fn deep_view(&self) -> CtxView {
        CtxView {
            clove_dir: self.clove_dir@,
            root: self.root@,
            issues_dir: self.issues_dir@,
            db_path: self.db_path@,
            id_prefix: self.id_prefix@,
        }
    }
}

/// Is `root` the root of the repository with this `.clove` directory: the parent of the
/// directory, or `.` where it has none?
pub open spec fn is_root_of(clove_dir: Seq<char>, root: Seq<char>) -> bool {
    exists|p: Option<Seq<char>>| #[trigger]
        path::is_parent(clove_dir, p) && root == (match p {
            Some(dir) => dir,
            None => "."@,
        })
}

/// The root of the repository with this `.clove` directory.
pub fn root_of(clove_dir: &str) -> (r: String)
    ensures
        is_root_of(clove_dir@, r@),
{
    let p = path::parent(clove_dir);
    assert(path::is_parent(clove_dir@, text::opt_view(p)));
    match p {
        Some(dir) => dir.to_owned(),
        None => ".".to_owned(),
    }
}

/// A directory `.clove` in a plain directory makes that one the root.
pub proof fn law_the_root_holds_the_directory(base: Seq<char>, root: Seq<char>)
    requires
        path::is_plain_dir(base),
        is_root_of(path::below(base, ".clove"@), root),
    ensures
        root == base,
{
    reveal_strlit(".clove");
    assert(path::is_component(".clove"@));
}

/// Where the repository is: its root and its `.clove` directory.
///
/// With an explicit `.clove` directory, the root is its parent, or the current directory
/// where it has none: see [`root_of`]. Otherwise the root is the nearest ancestor that holds
/// a `.clove` directory, which the caller looked for.
pub fn locate(
    clove_dir: Option<&str>,
    cwd: &str,
    found_root: Option<&str>,
) -> (r: Result<(String, String), CloveError>)
    ensures
        match r {
            Ok((root, dir)) => match clove_dir {
                Some(d) => dir@ == d@ && is_root_of(d@, root@),
                None => found_root is Some && root@ == found_root->0@ && path::extends(
                    root@,
                    ".clove"@,
                    dir@,
                ),
            },
            Err(e) => clove_dir is None && found_root is None && e.deep_view()
                == (ErrorView::NoRepo { searched: cwd@ }),
        },
{
    match clove_dir {
        Some(d) => Ok((root_of(d), d.to_owned())),
        None => match found_root {
            Some(root) => {
                proof {
                    reveal_strlit(".clove");
                }
                let dir = path::join(root, ".clove");
                Ok((root.to_owned(), dir))
            },
            None => Err(CloveError::NoRepo { searched: cwd.to_owned() }),
        },
    }
}

/// The context of a repository: its files lie below the `.clove` directory.
pub fn layout(root: &str, clove_dir: &str, id_prefix: &str) -> (r: Ctx)
    ensures
        r.root@ == root@,
        r.clove_dir@ == clove_dir@,
        r.id_prefix@ == id_prefix@,
        path::extends(clove_dir@, "issues"@, r.issues_dir@),
        path::extends(clove_dir@, "index.db"@, r.db_path@),
{
    proof {
        reveal_strlit("issues");
        reveal_strlit("index.db");
    }
    Ctx {
        clove_dir: clove_dir.to_owned(),
        root: root.to_owned(),
        issues_dir: path::join(clove_dir, "issues"),
        db_path: path::join(clove_dir, "index.db"),
        id_prefix: id_prefix.to_owned(),
    }
}

/// A path made relative to the root, for display; one that is not below it stays as it is.
pub fn rel_to_root(root: &str, path: &str) -> (r: String)
    ensures
        exists|rest: Option<Seq<char>>| #[trigger]
            path::is_stripped(path@, root@, rest) && r@ == (match rest {
                Some(s) => s,
                None => path@,
            }),
{
    let rest = path::strip_prefix(path, root);
    assert(path::is_stripped(path@, root@, text::opt_view(rest)));
    match rest {
        Some(s) => s.to_owned(),
        None => path.to_owned(),
    }
}

/// An index failure surfaces as an I/O error on the index file.
pub fn index_error(message: &str, path: &str) -> (r: CloveError)
    ensures
        r.deep_view() == (ErrorView::Io { path: path@, source: message@ }),
{
    CloveError::Io { path: path.to_owned(), source: message.to_owned() }
}

} // verus!
