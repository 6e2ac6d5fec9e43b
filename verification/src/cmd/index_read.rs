//! Which tier answers a list: the daemon, the index, or the files.

use vstd::prelude::*;

verus! {

/// With more items out of date than this the index is not refreshed in passing; the files
/// answer instead.
pub const STALE_REFRESH_LIMIT: usize = 20;

/// Who answered.
#[derive(Debug, Clone, Copy, PartialEq, Eq, Structural)]
pub enum Source {
    Daemon,
    Index,
    Files,
}

impl Source {
    /// The word for a source.
    pub open spec fn word(self) -> Seq<char> {
        match self {
            Source::Daemon => "daemon"@,
            Source::Index => "index"@,
            Source::Files => "files"@,
        }
    }

    pub fn as_str(self) -> (r: &'static str)
        ensures
            r@ == self.word(),
    {
        match self {
            Source::Daemon => "daemon",
            Source::Index => "index",
            Source::Files => "files",
        }
    }
}

/// May the daemon answer?
pub open spec fn daemon_may_answer(no_index: bool, lean: bool) -> bool {
    !no_index && lean
}

/// May the daemon be asked? Never with `--no-index`, nor for what a lean row lacks.
pub fn may_ask_daemon(no_index: bool, lean: bool) -> (r: bool)
    ensures
        r == daemon_may_answer(no_index, lean),
{
    !no_index && lean
}

/// May the index be opened? Only where it is there, too.
pub fn may_ask_index(no_index: bool, lean: bool, present: bool) -> (r: bool)
    ensures
        r == (!no_index && lean && present),
{
    !no_index && lean && present
}

/// What is done about a stale index before it answers.
#[derive(Debug, Clone, Copy, PartialEq, Eq, Structural)]
pub enum Refresh {
    /// It answers as it is.
    Keep,
    /// The changes are applied, then it answers.
    Apply,
    /// It is too far behind: the files answer.
    Bypass,
}

/// What `changes` items out of date ask for, where the repository has the index refreshed.
pub open spec fn refresh_for(auto_refresh: bool, changes: int) -> Refresh {
    if !auto_refresh || changes == 0 {
        Refresh::Keep
    } else if changes > STALE_REFRESH_LIMIT {
        Refresh::Bypass
    } else {
        Refresh::Apply
    }
}

/// Decides what is done about a stale index.
pub fn refresh(auto_refresh: bool, changes: usize) -> (r: Refresh)
    ensures
        r == refresh_for(auto_refresh, changes as int),
{
    if !auto_refresh || changes == 0 {
        Refresh::Keep
    } else if changes > STALE_REFRESH_LIMIT {
        Refresh::Bypass
    } else {
        Refresh::Apply
    }
}

/// The tier that answers: the daemon if it did, else the index if it did, else the files.
pub open spec fn tier_of(
    no_index: bool,
    lean: bool,
    daemon_answered: bool,
    index_answered: bool,
) -> Source {
    if !no_index && lean && daemon_answered {
        Source::Daemon
    } else if !no_index && lean && index_answered {
        Source::Index
    } else {
        Source::Files
    }
}

/// Decides which tier answers.
pub fn tier(no_index: bool, lean: bool, daemon_answered: bool, index_answered: bool) -> (r: Source)
    ensures
        r == tier_of(no_index, lean, daemon_answered, index_answered),
{
    if !no_index && lean && daemon_answered {
        Source::Daemon
    } else if !no_index && lean && index_answered {
        Source::Index
    } else {
        Source::Files
    }
}

/// With `--no-index`, and for fields that no lean row has, the files answer, whatever is
/// running.
pub proof fn law_the_files_answer_when_asked_to(
    no_index: bool,
    lean: bool,
    daemon_answered: bool,
    index_answered: bool,
)
    requires
        no_index || !lean,
    ensures
        tier_of(no_index, lean, daemon_answered, index_answered) == Source::Files,
{
}

/// A daemon that answers is asked first, then the index, and the files only where neither
/// answers; each is named by its own word.
pub proof fn law_the_fastest_source_answers(daemon_answered: bool, index_answered: bool)
    ensures
        daemon_answered ==> tier_of(false, true, daemon_answered, index_answered) == Source::Daemon,
        !daemon_answered && index_answered ==> tier_of(false, true, daemon_answered, index_answered)
            == Source::Index,
        !daemon_answered && !index_answered ==> tier_of(
            false,
            true,
            daemon_answered,
            index_answered,
        ) == Source::Files,
        forall|a: Source, b: Source| #[trigger] a.word() == #[trigger] b.word() ==> a == b,
{
    reveal_strlit("daemon");
    reveal_strlit("index");
    reveal_strlit("files");
    assert("index"@[0] != "files"@[0]);
}

/// An index that is up to date is kept; a few changes are applied to it, and with more of
/// them it is passed by.
pub proof fn law_few_changes_are_applied(auto_refresh: bool, changes: int)
    ensures
        changes == 0 ==> refresh_for(auto_refresh, changes) == Refresh::Keep,
        !auto_refresh ==> refresh_for(auto_refresh, changes) == Refresh::Keep,
        auto_refresh && 0 < changes <= 20 ==> refresh_for(auto_refresh, changes) == Refresh::Apply,
        auto_refresh && changes > 20 ==> refresh_for(auto_refresh, changes) == Refresh::Bypass,
{
}

/// The daemon is asked only where the index may be used and its rows have all that is wanted.
pub proof fn law_the_daemon_answers_only_lean_questions(no_index: bool, lean: bool)
    ensures
        daemon_may_answer(false, true),
        !daemon_may_answer(true, lean),
        !daemon_may_answer(no_index, false),
{
}

} // verus!
