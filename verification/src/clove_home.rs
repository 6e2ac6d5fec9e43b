//! The clove home directory: a per-user root that holds `bin/` (the plugin binaries
//! clove installed) and the registry cache.
//!
//! It is not a repository's `.clove/` directory and is never named like one: any
//! directory with a `.clove/` in it is taken for a repository root, so a home of that
//! name would turn the user's home directory into a repository.
//!
//! The values of the environment's variables are parameters.

use vstd::prelude::*;

use crate::error::{invalid, invalid_field, CloveError, ErrorView};
use crate::path;
use crate::text;

verus! {

/// The values of the variables that decide where the home directory is.
#[derive(Debug, PartialEq, Eq)]
pub struct Environment {
    /// Is this Windows?
    pub windows: bool,
    /// `$CLOVE_HOME`.
    pub clove_home: Option<String>,
    /// `$XDG_DATA_HOME`.
    pub xdg_data_home: Option<String>,
    /// `%APPDATA%`.
    pub appdata: Option<String>,
    /// `$HOME`, or `%USERPROFILE%` on Windows.
    pub home: Option<String>,
}

/// The variable that holds the user's home directory.
pub open spec fn home_variable(windows: bool) -> Seq<char> {
    if windows {
        "USERPROFILE"@
    } else {
        "HOME"@
    }
}

/// What is said where there is no home directory. `field` names what needed it.
pub open spec fn no_home(windows: bool, field: Seq<char>) -> ErrorView {
    invalid_field(
        field,
        "cannot resolve the home directory: $"@ + home_variable(windows) + " is not set"@,
    )
}

impl Environment {
    /// The user's home directory. `field` names the caller's context, so that a failure
    /// blames what the current command has.
    pub fn home_dir(&self, field: &str) -> (r: Result<String, CloveError>)
        ensures
            match r {
                Ok(dir) => self.home.deep_view() == Some(dir@),
                Err(e) => self.home is None && e.deep_view() == no_home(self.windows, field@),
            },
    {
        match &self.home {
            Some(dir) => Ok(dir.clone()),
            None => {
                let var = if self.windows {
                    "USERPROFILE"
                } else {
                    "HOME"
                };
                Err(
                    invalid(
                        field,
                        text::cat3("cannot resolve the home directory: $", var, " is not set"),
                    ),
                )
            },
        }
    }
}

/// A value that is there and not empty.
pub open spec fn present(value: Option<Seq<char>>) -> Option<Seq<char>> {
    match value {
        Some(v) => if v.len() > 0 {
            Some(v)
        } else {
            None
        },
        None => None,
    }
}

/// A variable, treated as absent when empty: an empty `$CLOVE_HOME` must not resolve
/// the root to a relative path.
pub fn non_empty(value: &Option<String>) -> (r: Option<&str>)
    ensures
        text::opt_view(r) == present(value.deep_view()),
{
    match value {
        Some(v) => if v.as_str().is_empty() {
            None
        } else {
            Some(v.as_str())
        },
        None => None,
    }
}

/// Is `path` the directory `base` extended by `a`, `b` and `c`?
pub open spec fn extends3(
    base: Seq<char>,
    a: Seq<char>,
    b: Seq<char>,
    c: Seq<char>,
    path: Seq<char>,
) -> bool {
    exists|p: Seq<char>, q: Seq<char>|
        #[trigger] path::extends(base, a, p) && #[trigger] path::extends(p, b, q) && path::extends(
            q,
            c,
            path,
        )
}

/// Is `dir` where the clove home is? `$CLOVE_HOME` wins; then `$XDG_DATA_HOME/clove`;
/// then, on Windows, `%APPDATA%\clove` or else `clove` in the home directory; and
/// elsewhere `.local/share/clove` in it.
pub open spec fn is_clove_home(e: Environment, dir: Seq<char>) -> bool {
    if present(e.clove_home.deep_view()) is Some {
        dir == e.clove_home->0@
    } else if present(e.xdg_data_home.deep_view()) is Some {
        path::extends(e.xdg_data_home->0@, "clove"@, dir)
    } else if e.windows {
        if present(e.appdata.deep_view()) is Some {
            path::extends(e.appdata->0@, "clove"@, dir)
        } else {
            e.home is Some && path::extends(e.home->0@, "clove"@, dir)
        }
    } else {
        e.home is Some && extends3(e.home->0@, ".local"@, "share"@, "clove"@, dir)
    }
}

/// Do none of the variables lead anywhere?
pub open spec fn is_homeless(e: Environment) -> bool {
    &&& present(e.clove_home.deep_view()) is None
    &&& present(e.xdg_data_home.deep_view()) is None
    &&& e.windows ==> present(e.appdata.deep_view()) is None
    &&& e.home is None
}

/// Resolves the clove home directory.
pub fn clove_home(env: &Environment) -> (r: Result<String, CloveError>)
    ensures
        match r {
            Ok(dir) => is_clove_home(*env, dir@),
            Err(e) => is_homeless(*env) && e.deep_view() == no_home(env.windows, "CLOVE_HOME"@),
        },
{
    proof {
        reveal_strlit("clove");
        reveal_strlit(".local");
        reveal_strlit("share");
    }
    if let Some(dir) = non_empty(&env.clove_home) {
        return Ok(dir.to_owned());
    }
    if let Some(dir) = non_empty(&env.xdg_data_home) {
        return Ok(path::join(dir, "clove"));
    }
    if env.windows {
        if let Some(dir) = non_empty(&env.appdata) {
            return Ok(path::join(dir, "clove"));
        }
        match env.home_dir("CLOVE_HOME") {
            Ok(home) => Ok(path::join(home.as_str(), "clove")),
            Err(e) => Err(e),
        }
    } else {
        match env.home_dir("CLOVE_HOME") {
            Ok(home) => {
                let local = path::join(home.as_str(), ".local");
                let share = path::join(local.as_str(), "share");
                let dir = path::join(share.as_str(), "clove");
                assert(path::extends(home@, ".local"@, local@) && path::extends(
                    local@,
                    "share"@,
                    share@,
                ));
                Ok(dir)
            },
            Err(e) => Err(e),
        }
    }
}

/// The directory of the installed plugin binaries. Where there is no home there is no
/// such directory, which is no failure: it contributes nothing to the search path.
pub fn bin_dir(env: &Environment) -> (r: Option<String>)
    ensures
        match r {
            Some(dir) => exists|home: Seq<char>|
                #[trigger] is_clove_home(*env, home) && path::extends(home, "bin"@, dir@),
            None => is_homeless(*env),
        },
{
    proof {
        reveal_strlit("bin");
    }
    match clove_home(env) {
        Ok(home) => {
            let dir = path::join(home.as_str(), "bin");
            assert(is_clove_home(*env, home@));
            Some(dir)
        },
        Err(_) => None,
    }
}

/// Is `name` the last component of `dir`?
pub open spec fn is_named(dir: Seq<char>, name: Seq<char>) -> bool {
    text::ends(dir, name) && (dir.len() == name.len() || {
        let c = dir[dir.len() - name.len() - 1];
        c == '/' || c == '\\' || c == ':'
    })
}

/// Is `base` neither a network path nor the beginning of one?
pub open spec fn is_local(base: Seq<char>) -> bool {
    base.len() == 0 || base[0] != '\\'
}

proof fn lemma_extension_stays_local(base: Seq<char>, part: Seq<char>, path: Seq<char>)
    requires
        path::extends(base, part, path),
        is_local(base),
        part.len() > 0,
        part[0] != '\\',
    ensures
        is_local(path),
{
    assert(seq!['\\', '\\'][0] == '\\');
    if text::begins(base, seq!['\\', '\\']) {
        assert(base.take(2)[0] == base[0]);
    }
}

proof fn lemma_no_marker(base: Seq<char>, dir: Seq<char>)
    requires
        path::extends(base, "clove"@, dir),
        is_local(base),
    ensures
        is_named(dir, "clove"@),
        !is_named(dir, ".clove"@),
{
    reveal_strlit("clove");
    reveal_strlit(".clove");
    assert(seq!['\\', '\\'][0] == '\\');
    if text::begins(base, seq!['\\', '\\']) {
        assert(base.take(2)[0] == base[0]);
    }
    let n = dir.len() - 5;
    assert(dir.skip(n) =~= "clove"@);
    if is_named(dir, ".clove"@) {
        assert(dir.skip(dir.len() - 6)[0] == ".clove"@[0]);
        assert(dir[dir.len() - 6] == '.');
    }
}

/// Unless the user's own `$CLOVE_HOME` says otherwise, the clove home is called
/// `clove` and never `.clove`, so it is not taken for a repository. (Of a variable that
/// begins with a backslash, as a network path does, nothing is said.)
pub proof fn law_home_is_never_a_repository_marker(e: Environment, dir: Seq<char>)
    requires
        is_clove_home(e, dir),
        present(e.clove_home.deep_view()) is None,
        e.xdg_data_home matches Some(d) ==> is_local(d@),
        e.appdata matches Some(d) ==> is_local(d@),
        e.home matches Some(d) ==> is_local(d@),
    ensures
        is_named(dir, "clove"@),
        !is_named(dir, ".clove"@),
{
    reveal_strlit(".local");
    reveal_strlit("share");
    if present(e.xdg_data_home.deep_view()) is Some {
        lemma_no_marker(e.xdg_data_home->0@, dir);
    } else if e.windows && present(e.appdata.deep_view()) is Some {
        lemma_no_marker(e.appdata->0@, dir);
    } else if e.windows {
        lemma_no_marker(e.home->0@, dir);
    } else {
        let (p, q) = choose|p: Seq<char>, q: Seq<char>|
            #[trigger] path::extends(e.home->0@, ".local"@, p) && #[trigger] path::extends(
                p,
                "share"@,
                q,
            ) && path::extends(q, "clove"@, dir);
        lemma_extension_stays_local(e.home->0@, ".local"@, p);
        lemma_extension_stays_local(p, "share"@, q);
        lemma_no_marker(q, dir);
    }
}

/// clove's directory is the one it is told; else it is in the data directory that is named,
/// and only else below the home directory. Whoever has none of these has no home.
pub proof fn law_clove_lives_where_it_is_told(e: Environment, dir: Seq<char>, d: Seq<char>)
    ensures
        d.len() > 0 && e.clove_home.deep_view() == Some(d) && is_clove_home(e, dir) ==> dir == d,
        e.clove_home is None && d.len() > 0 && e.xdg_data_home.deep_view() == Some(d)
            && is_clove_home(e, dir) ==> path::extends(d, "clove"@, dir),
        e.clove_home is None && e.xdg_data_home is None && e.windows && d.len() > 0
            && e.appdata.deep_view() == Some(d) && is_clove_home(e, dir) ==> path::extends(
            d,
            "clove"@,
            dir,
        ),
        e.clove_home is None && e.xdg_data_home is None && !e.windows && e.home.deep_view() == Some(
            d,
        ) && is_clove_home(e, dir) ==> extends3(d, ".local"@, "share"@, "clove"@, dir),
        is_homeless(e) ==> !is_clove_home(e, dir),
        present(Some(Seq::empty())) is None && present(None) is None,
        d.len() > 0 ==> present(Some(d)) == Some(d),
        home_variable(true) != home_variable(false),
{
    reveal_strlit("USERPROFILE");
    reveal_strlit("HOME");
    assert(home_variable(true).len() == 11 && home_variable(false).len() == 4);
}

} // verus!
