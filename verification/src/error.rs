//! The errors that a command ends in.

use vstd::prelude::*;

use crate::text;

verus! {

/// Why a command failed.
#[derive(Debug, PartialEq, Eq)]
pub enum CloveError {
    /// No item has this id.
    NotFound { id: String },
    /// An argument or a field does not have an acceptable value.
    InvalidField { field: String, reason: String },
    /// A file could not be read or written.
    Io { path: String, source: String },
    /// No `.clove/` directory was found from `searched` upward.
    NoRepo { searched: String },
    /// The plugin registry, or a tool that installs from it, failed.
    Registry { message: String },
    /// A daemon or a server answered with an error of its own.
    Remote { code: String, exit: u8, message: String },
    /// An item was to depend on itself.
    SelfDependency { id: String },
    /// A new dependency would close a cycle.
    DependencyCycle { from: String, to: String, cycle: Vec<String> },
    /// The dependency is already there.
    DependencyExists { from: String, to: String },
    /// This build leaves the feature out.
    NotYetImplemented { feature: String },
}

/// The model of a [`CloveError`].
pub enum ErrorView {
    NotFound { id: Seq<char> },
    InvalidField { field: Seq<char>, reason: Seq<char> },
    Io { path: Seq<char>, source: Seq<char> },
    NoRepo { searched: Seq<char> },
    Registry { message: Seq<char> },
    Remote { code: Seq<char>, exit: u8, message: Seq<char> },
    SelfDependency { id: Seq<char> },
    DependencyCycle { from: Seq<char>, to: Seq<char>, cycle: Seq<Seq<char>> },
    DependencyExists { from: Seq<char>, to: Seq<char> },
    NotYetImplemented { feature: Seq<char> },
}

impl DeepView for CloveError {
    type V = ErrorView;

    open spec fn deep_view(&self) -> ErrorView {
        match *self {
            CloveError::NotFound { id } => ErrorView::NotFound { id: id@ },
            CloveError::InvalidField { field, reason } => ErrorView::InvalidField {
                field: field@,
                reason: reason@,
            },
            CloveError::Io { path, source } => ErrorView::Io { path: path@, source: source@ },
            CloveError::NoRepo { searched } => ErrorView::NoRepo { searched: searched@ },
            CloveError::Registry { message } => ErrorView::Registry { message: message@ },
            CloveError::Remote { code, exit, message } => ErrorView::Remote {
                code: code@,
                exit,
                message: message@,
            },
            CloveError::SelfDependency { id } => ErrorView::SelfDependency { id: id@ },
            CloveError::DependencyCycle { from, to, cycle } => ErrorView::DependencyCycle {
                from: from@,
                to: to@,
                cycle: cycle.deep_view(),
            },
            CloveError::DependencyExists { from, to } => ErrorView::DependencyExists {
                from: from@,
                to: to@,
            },
            CloveError::NotYetImplemented { feature } => ErrorView::NotYetImplemented {
                feature: feature@,
            },
        }
    }
}

/// The model of a result.
pub open spec fn outcome<T: DeepView>(r: Result<T, CloveError>) -> Result<T::V, ErrorView> {
    match r {
        Ok(t) => Ok(t.deep_view()),
        Err(e) => Err(e.deep_view()),
    }
}

/// The model of a result that carries nothing on success.
pub open spec fn verdict(r: Result<(), CloveError>) -> Option<ErrorView> {
    match r {
        Ok(_) => None,
        Err(e) => Some(e.deep_view()),
    }
}

/// An argument or a field without an acceptable value.
pub open spec fn invalid_field(field: Seq<char>, reason: Seq<char>) -> ErrorView {
    ErrorView::InvalidField { field, reason }
}

/// A failure of the registry or of a tool behind it.
pub open spec fn registry_failure(message: Seq<char>) -> ErrorView {
    ErrorView::Registry { message }
}

pub fn invalid(field: &str, reason: String) -> (r: CloveError)
    ensures
        r.deep_view() == invalid_field(field@, reason@),
{
    CloveError::InvalidField { field: field.to_owned(), reason }
}

pub fn registry_error(message: String) -> (r: CloveError)
    ensures
        r.deep_view() == registry_failure(message@),
{
    CloveError::Registry { message }
}

/// The stable code of an error and the exit code that it stands for.
pub open spec fn coded(e: ErrorView) -> (Seq<char>, int) {
    match e {
        ErrorView::NotFound { .. } => ("ITEM_NOT_FOUND"@, 2),
        ErrorView::InvalidField { .. } => ("VALIDATION_ERROR"@, 4),
        ErrorView::Io { .. } => ("IO_ERROR"@, 5),
        ErrorView::NoRepo { .. } => ("NO_REPO"@, 5),
        ErrorView::Registry { .. } => ("REGISTRY_ERROR"@, 5),
        ErrorView::Remote { code, exit, .. } => (code, exit as int),
        ErrorView::SelfDependency { .. } => ("SELF_DEPENDENCY"@, 4),
        ErrorView::DependencyCycle { .. } => ("DEPENDENCY_CYCLE"@, 3),
        ErrorView::DependencyExists { .. } => ("DEPENDENCY_EXISTS"@, 4),
        ErrorView::NotYetImplemented { .. } => ("NOT_IMPLEMENTED"@, 1),
    }
}

/// The stable code of an error and the exit code that it stands for.
pub fn error_code(error: &CloveError) -> (r: (String, u8))
    ensures
        (r.0@, r.1 as int) == coded(error.deep_view()),
{
    match error {
        CloveError::NotFound { .. } => ("ITEM_NOT_FOUND".to_owned(), 2),
        CloveError::InvalidField { .. } => ("VALIDATION_ERROR".to_owned(), 4),
        CloveError::Io { .. } => ("IO_ERROR".to_owned(), 5),
        CloveError::NoRepo { .. } => ("NO_REPO".to_owned(), 5),
        CloveError::Registry { .. } => ("REGISTRY_ERROR".to_owned(), 5),
        CloveError::Remote { code, exit, .. } => (code.clone(), *exit),
        CloveError::SelfDependency { .. } => ("SELF_DEPENDENCY".to_owned(), 4),
        CloveError::DependencyCycle { .. } => ("DEPENDENCY_CYCLE".to_owned(), 3),
        CloveError::DependencyExists { .. } => ("DEPENDENCY_EXISTS".to_owned(), 4),
        CloveError::NotYetImplemented { .. } => ("NOT_IMPLEMENTED".to_owned(), 1),
    }
}

/// What a user is told of an error.
pub open spec fn told(e: ErrorView) -> Seq<char> {
    match e {
        ErrorView::NotFound { id } => "item not found: "@ + id,
        ErrorView::InvalidField { field, reason } => "invalid `"@ + field + "`: "@ + reason,
        ErrorView::Io { path, source } => path + ": "@ + source,
        ErrorView::NoRepo { searched } => "no clove repository found from "@ + searched
            + " upward; run `clove init`"@,
        ErrorView::Registry { message } => message,
        ErrorView::Remote { message, .. } => message,
        ErrorView::SelfDependency { id } => "an item cannot depend on itself: "@ + id,
        ErrorView::DependencyCycle { from, to, cycle } => "`"@ + from + "` cannot depend on `"@ + to
            + "`, which would close the cycle "@ + text::joined(cycle, " -> "@),
        ErrorView::DependencyExists { from, to } => "`"@ + from + "` already depends on `"@ + to
            + "`"@,
        ErrorView::NotYetImplemented { feature } => "not available in this build: "@ + feature,
    }
}

impl CloveError {
    /// What the user is told.
    pub fn to_string(&self) -> (r: String)
        ensures
            r@ == told(self.deep_view()),
    {
        match self {
            CloveError::NotFound { id } => text::cat2("item not found: ", id.as_str()),
            CloveError::InvalidField { field, reason } => text::cat4(
                "invalid `",
                field.as_str(),
                "`: ",
                reason.as_str(),
            ),
            CloveError::Io { path, source } => text::cat3(path.as_str(), ": ", source.as_str()),
            CloveError::NoRepo { searched } => text::cat3(
                "no clove repository found from ",
                searched.as_str(),
                " upward; run `clove init`",
            ),
            CloveError::Registry { message } => message.clone(),
            CloveError::Remote { message, .. } => message.clone(),
            CloveError::SelfDependency { id } => text::cat2(
                "an item cannot depend on itself: ",
                id.as_str(),
            ),
            CloveError::DependencyCycle { from, to, cycle } => {
                let path = text::join(cycle, " -> ");
                text::cat6(
                    "`",
                    from.as_str(),
                    "` cannot depend on `",
                    to.as_str(),
                    "`, which would close the cycle ",
                    path.as_str(),
                )
            },
            CloveError::DependencyExists { from, to } => text::cat5(
                "`",
                from.as_str(),
                "` already depends on `",
                to.as_str(),
                "`",
            ),
            CloveError::NotYetImplemented { feature } => text::cat2(
                "not available in this build: ",
                feature.as_str(),
            ),
        }
    }
}

/// Each kind of error has its code and its exit: what was not found, what closes a cycle, what
/// is not valid, and what could not be read or reached. A remote error keeps its own.
pub proof fn law_each_error_has_its_code(
    a: Seq<char>,
    b: Seq<char>,
    c: Seq<Seq<char>>,
    exit: u8,
)
    ensures
        coded(ErrorView::NotFound { id: a }) == ("ITEM_NOT_FOUND"@, 2int),
        coded(ErrorView::DependencyCycle { from: a, to: b, cycle: c }) == ("DEPENDENCY_CYCLE"@, 3int),
        coded(ErrorView::InvalidField { field: a, reason: b }) == ("VALIDATION_ERROR"@, 4int),
        coded(ErrorView::SelfDependency { id: a }) == ("SELF_DEPENDENCY"@, 4int),
        coded(ErrorView::DependencyExists { from: a, to: b }) == ("DEPENDENCY_EXISTS"@, 4int),
        coded(ErrorView::Io { path: a, source: b }) == ("IO_ERROR"@, 5int),
        coded(ErrorView::NoRepo { searched: a }) == ("NO_REPO"@, 5int),
        coded(ErrorView::Registry { message: a }) == ("REGISTRY_ERROR"@, 5int),
        coded(ErrorView::NotYetImplemented { feature: a }) == ("NOT_IMPLEMENTED"@, 1int),
        coded(ErrorView::Remote { code: a, exit, message: b }) == (a, exit as int),
{
}

/// What is told of an error shows everything that it is about.
pub proof fn law_an_error_tells_what_it_is_about(
    a: Seq<char>,
    b: Seq<char>,
    c: Seq<Seq<char>>,
    exit: u8,
    i: int,
)
    ensures
        text::ends(told(ErrorView::NotFound { id: a }), a),
        told(ErrorView::InvalidField { field: a, reason: b }) == "invalid `"@ + a + "`: "@ + b,
        told(ErrorView::Io { path: a, source: b }) == a + ": "@ + b,
        text::occurs(told(ErrorView::NoRepo { searched: a }), a),
        told(ErrorView::Registry { message: a }) == a,
        told(ErrorView::Remote { code: a, exit, message: b }) == b,
        text::ends(told(ErrorView::SelfDependency { id: a }), a),
        text::begins(
            told(ErrorView::DependencyCycle { from: a, to: b, cycle: c }),
            "`"@ + a + "` cannot depend on `"@ + b,
        ),
        0 <= i < c.len() ==> text::occurs(
            told(ErrorView::DependencyCycle { from: a, to: b, cycle: c }),
            c[i],
        ),
        told(ErrorView::DependencyExists { from: a, to: b }) == "`"@ + a
            + "` already depends on `"@ + b + "`"@,
        text::ends(told(ErrorView::NotYetImplemented { feature: a }), a),
{
    let s = told(ErrorView::NotFound { id: a });
    assert(s.skip(s.len() - a.len()) =~= a);
    let t = told(ErrorView::SelfDependency { id: a });
    assert(t.skip(t.len() - a.len()) =~= a);
    let u = told(ErrorView::NotYetImplemented { feature: a });
    assert(u.skip(u.len() - a.len()) =~= a);
    text::lemma_occurs_between(
        "no clove repository found from "@,
        a,
        " upward; run `clove init`"@,
    );
    let front = "`"@ + a + "` cannot depend on `"@ + b;
    let v = told(ErrorView::DependencyCycle { from: a, to: b, cycle: c });
    assert(v.take(front.len() as int) =~= front);
    if 0 <= i < c.len() {
        text::law_joined_parts_occur(c, " -> "@, i);
        text::lemma_occurs_in_back(
            front + "`, which would close the cycle "@,
            text::joined(c, " -> "@),
            c[i],
        );
    }
}

} // verus!
