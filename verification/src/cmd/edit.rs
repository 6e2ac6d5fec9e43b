//! `clove edit` without fields: the item's file in an editor.

use vstd::prelude::*;

use crate::error::{CloveError, ErrorView};
use crate::text;

verus! {

/// The editor in force: `$CLOVE_EDITOR`, or `$VISUAL`, or `$EDITOR`, or `vi`. A variable
/// that is set counts, even if it is empty.
pub open spec fn editor_of(
    clove_editor: Option<Seq<char>>,
    visual: Option<Seq<char>>,
    editor: Option<Seq<char>>,
) -> Seq<char> {
    if clove_editor is Some {
        clove_editor->0
    } else if visual is Some {
        visual->0
    } else if editor is Some {
        editor->0
    } else {
        "vi"@
    }
}

/// Picks the editor.
pub fn choose_editor(
    clove_editor: Option<String>,
    visual: Option<String>,
    editor: Option<String>,
) -> (r: String)
    ensures
        r@ == editor_of(clove_editor.deep_view(), visual.deep_view(), editor.deep_view()),
{
    match clove_editor {
        Some(e) => e,
        None => match visual {
            Some(e) => e,
            None => match editor {
                Some(e) => e,
                None => "vi".to_owned(),
            },
        },
    }
}

/// What is wrong after an editor was run on a file.
pub open spec fn editor_problem(editor: Seq<char>, path: Seq<char>, success: bool) -> Option<
    ErrorView,
> {
    if success {
        None
    } else {
        Some(
            ErrorView::Io { path, source: "editor `"@ + editor + "` exited with failure"@ },
        )
    }
}

/// What an editor's run comes to: it must have exited with success.
pub fn editor_outcome(editor: &str, path: &str, success: bool) -> (r: Result<(), CloveError>)
    ensures
        crate::error::verdict(r) == editor_problem(editor@, path@, success),
{
    if success {
        Ok(())
    } else {
        Err(
            CloveError::Io {
                path: path.to_owned(),
                source: text::cat3("editor `", editor, "` exited with failure"),
            },
        )
    }
}

/// The editor is clove's own variable before the visual one, that before the plain one, and
/// `vi` only where none is set.
pub proof fn law_the_first_editor_that_is_set_is_used(
    clove_editor: Option<Seq<char>>,
    visual: Option<Seq<char>>,
    editor: Option<Seq<char>>,
    named: Seq<char>,
)
    ensures
        editor_of(Some(named), visual, editor) == named,
        editor_of(None, Some(named), editor) == named,
        editor_of(None, None, Some(named)) == named,
        editor_of(None, None, None) == "vi"@,
{
}

/// An edit fails exactly when its editor does, and names the file and the editor.
pub proof fn law_an_edit_fails_with_its_editor(editor: Seq<char>, path: Seq<char>)
    ensures
        editor_problem(editor, path, true) is None,
        editor_problem(editor, path, false) matches Some(ErrorView::Io { path: p, source }) && p
            == path && text::occurs(source, editor),
{
    text::lemma_occurs_between("editor `"@, editor, "` exited with failure"@);
}

} // verus!
