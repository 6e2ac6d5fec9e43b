//! `clove mcp`: the server that exposes clove to agents as tools.

pub mod catalog;
pub mod tools;

use vstd::prelude::*;

use crate::error::CloveError;
use crate::path::extends;

verus! {

/// The names of the tools.
pub open spec fn tool_names() -> Seq<Seq<char>> {
    seq![
        "clove_ready"@,
        "clove_blocked"@,
        "clove_list"@,
        "clove_show"@,
        "clove_search"@,
        "clove_comments"@,
        "clove_dep_tree"@,
        "clove_stats"@,
        "clove_new"@,
        "clove_status"@,
        "clove_edit"@,
        "clove_comment"@,
        "clove_dep_add"@,
        "clove_dep_remove"@,
        "clove_set_parent"@,
    ]
}

/// The names of the tools that the server exposes.
pub fn names() -> (r: Vec<String>)
    ensures
        r.deep_view() == tool_names(),
{
    let v: Vec<String> = vec![
        "clove_ready".to_owned(),
        "clove_blocked".to_owned(),
        "clove_list".to_owned(),
        "clove_show".to_owned(),
        "clove_search".to_owned(),
        "clove_comments".to_owned(),
        "clove_dep_tree".to_owned(),
        "clove_stats".to_owned(),
        "clove_new".to_owned(),
        "clove_status".to_owned(),
        "clove_edit".to_owned(),
        "clove_comment".to_owned(),
        "clove_dep_add".to_owned(),
        "clove_dep_remove".to_owned(),
        "clove_set_parent".to_owned(),
    ];
    assert(v.deep_view() =~= tool_names());
    v
}

/// What looking for the repository came to.
#[derive(Debug, PartialEq, Eq)]
pub enum Found {
    /// It is there: its root and its `.clove/` directory.
    Repository { root: String, clove_dir: String },
    Failed(CloveError),
}

/// Decides where the server runs: in the repository, or, where there is none yet, in the
/// current directory, so that its tools can say so. Any other failure is a genuine one.
pub fn run(found: Found, cwd: &str) -> (r: Result<(String, String), CloveError>)
    ensures
        match found {
            Found::Repository { root, clove_dir } => r == Ok::<(String, String), CloveError>(
                (root, clove_dir),
            ),
            Found::Failed(CloveError::NoRepo { .. }) => r matches Ok((root, dir)) && root@ == cwd@
                && extends(cwd@, ".clove"@, dir@),
            Found::Failed(e) => r == Err::<(String, String), CloveError>(e),
        },
{
    proof {
        reveal_strlit(".clove");
    }
    match found {
        Found::Repository { root, clove_dir } => Ok((root, clove_dir)),
        Found::Failed(e) => match e {
            CloveError::NoRepo { .. } => Ok((cwd.to_owned(), crate::path::join(cwd, ".clove"))),
            other => Err(other),
        },
    }
}

} // verus!
