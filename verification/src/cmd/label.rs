//! `clove label <id> <add|rm> <label>`.

use vstd::prelude::*;

use crate::error::{invalid, invalid_field, CloveError, ErrorView};
use crate::text;

verus! {

/// A change to an item's labels.
#[derive(Debug, PartialEq, Eq)]
pub enum LabelEdit {
    Add(String),
    Remove(String),
}

/// The model of a [`LabelEdit`].
pub enum LabelEditView {
    Add(Seq<char>),
    Remove(Seq<char>),
}

impl DeepView for LabelEdit {
    type V = LabelEditView;

    open spec fn deep_view(&self) -> LabelEditView {
        match *self {
            LabelEdit::Add(l) => LabelEditView::Add(l@),
            LabelEdit::Remove(l) => LabelEditView::Remove(l@),
        }
    }
}

/// The change that an action word, in any case, asks for.
pub open spec fn label_edit(action: Seq<char>, label: Seq<char>) -> Result<LabelEditView, ErrorView> {
    let word = text::lowered(action);
    if word == "add"@ {
        Ok(LabelEditView::Add(label))
    } else if word == "rm"@ || word == "remove"@ {
        Ok(LabelEditView::Remove(label))
    } else {
        Err(invalid_field("action"@, "expected add|rm, got `"@ + word + "`"@))
    }
}

/// Reads the arguments of a label change.
pub fn edit_of(action: &str, label: &str) -> (r: Result<LabelEdit, CloveError>)
    ensures
        crate::error::outcome(r) == label_edit(action@, label@),
{
    let word = text::to_ascii_lowercase(action);
    if text::same(word.as_str(), "add") {
        Ok(LabelEdit::Add(label.to_owned()))
    } else if text::same(word.as_str(), "rm") || text::same(word.as_str(), "remove") {
        Ok(LabelEdit::Remove(label.to_owned()))
    } else {
        Err(invalid("action", text::cat3("expected add|rm, got `", word.as_str(), "`")))
    }
}

/// `add` adds the label and `rm` or `remove` takes it away, whatever the case of the word; the
/// label is the one that was given, and any other word is refused.
pub proof fn law_the_action_decides_what_becomes_of_the_label(action: Seq<char>, label: Seq<char>)
    ensures
        label_edit(action, label) == Ok::<LabelEditView, ErrorView>(LabelEditView::Add(label))
            <==> text::lowered(action) == "add"@,
        label_edit(action, label) == Ok::<LabelEditView, ErrorView>(LabelEditView::Remove(label))
            <==> text::lowered(action) == "rm"@ || text::lowered(action) == "remove"@,
        label_edit(action, label) is Err <==> text::lowered(action) != "add"@ && text::lowered(
            action,
        ) != "rm"@ && text::lowered(action) != "remove"@,
{
    reveal_strlit("add");
    reveal_strlit("rm");
    reveal_strlit("remove");
    assert("add"@.len() != "rm"@.len() && "add"@.len() != "remove"@.len());
}

} // verus!
