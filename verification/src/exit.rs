//! Exit codes, and which of them an error ends in.

use vstd::prelude::*;

use crate::error::{coded, error_code, CloveError, ErrorView};

verus! {

/// The table of exit codes. The numbers are stable.
#[derive(Debug, Clone, Copy, PartialEq, Eq, Structural)]
pub enum ExitCode {
    /// Data returned (possibly empty).
    Success,
    /// Bad flag, unknown subcommand, argument parse error.
    Usage,
    /// Item does not exist.
    NotFound,
    /// A `dep add` (or `--fail-on-cycle`) cycle was detected.
    Cycle,
    /// Bad field value, id collision, invalid priority, config error.
    Validation,
    /// `.clove/` missing, file unreadable, filesystem error.
    Io,
    /// Stale index with `--strict`; index unrecoverable.
    Index,
    /// Daemon communication failure.
    Daemon,
}

impl ExitCode {
    /// The number of an exit code.
    pub open spec fn number(self) -> u8 {
        match self {
            ExitCode::Success => 0,
            ExitCode::Usage => 1,
            ExitCode::NotFound => 2,
            ExitCode::Cycle => 3,
            ExitCode::Validation => 4,
            ExitCode::Io => 5,
            ExitCode::Index => 6,
            ExitCode::Daemon => 7,
        }
    }

    pub fn code(self) -> (r: u8)
        ensures
            r == self.number(),
    {
        match self {
            ExitCode::Success => 0,
            ExitCode::Usage => 1,
            ExitCode::NotFound => 2,
            ExitCode::Cycle => 3,
            ExitCode::Validation => 4,
            ExitCode::Io => 5,
            ExitCode::Index => 6,
            ExitCode::Daemon => 7,
        }
    }
}

/// The exit code that an error ends in: the one of its number, or the I/O code for
/// a number outside the table.
pub open spec fn exit_of(e: ErrorView, code: ExitCode) -> bool {
    if 0 <= coded(e).1 <= 7 {
        code.number() == coded(e).1
    } else {
        code == ExitCode::Io
    }
}

/// Classifies an error into its exit code and its stable string code.
pub fn classify(error: &CloveError) -> (r: (ExitCode, String))
    ensures
        exit_of(error.deep_view(), r.0),
        r.1@ == coded(error.deep_view()).0,
{
    let (code, exit) = error_code(error);
    let exit_code = match exit {
        0 => ExitCode::Success,
        1 => ExitCode::Usage,
        2 => ExitCode::NotFound,
        3 => ExitCode::Cycle,
        4 => ExitCode::Validation,
        5 => ExitCode::Io,
        6 => ExitCode::Index,
        7 => ExitCode::Daemon,
        _ => ExitCode::Io,
    };
    (exit_code, code)
}

/// No two exit codes share a number.
pub proof fn law_exit_codes_are_distinct(a: ExitCode, b: ExitCode)
    ensures
        a.number() == b.number() ==> a == b,
{
}

/// Every failure other than a remote one that says otherwise exits with a number
/// above zero, so no error reads as success.
pub proof fn law_errors_never_exit_with_success(e: ErrorView, code: ExitCode)
    requires
        exit_of(e, code),
        !(e is Remote),
    ensures
        code != ExitCode::Success,
{
}

/// The exit codes have the numbers that scripts go by, and an error ends with its own.
pub proof fn law_exit_codes_are_what_scripts_go_by(e: ErrorView, code: ExitCode)
    ensures
        ExitCode::Success.number() == 0 && ExitCode::Usage.number() == 1,
        ExitCode::NotFound.number() == 2 && ExitCode::Cycle.number() == 3,
        ExitCode::Validation.number() == 4 && ExitCode::Io.number() == 5,
        ExitCode::Index.number() == 6 && ExitCode::Daemon.number() == 7,
        e is NotFound && exit_of(e, code) ==> code == ExitCode::NotFound,
        e is DependencyCycle && exit_of(e, code) ==> code == ExitCode::Cycle,
        e is InvalidField && exit_of(e, code) ==> code == ExitCode::Validation,
        e is Io && exit_of(e, code) ==> code == ExitCode::Io,
        e is NoRepo && exit_of(e, code) ==> code == ExitCode::Io,
        e is Registry && exit_of(e, code) ==> code == ExitCode::Io,
        e matches ErrorView::Remote { exit, .. } ==> (exit <= 7 && exit_of(e, code)
            ==> code.number() == exit),
        e matches ErrorView::Remote { exit, .. } ==> (exit > 7 && exit_of(e, code) ==> code
            == ExitCode::Io),
{
}

} // verus!
