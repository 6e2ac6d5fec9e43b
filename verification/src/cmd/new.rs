//! `clove new`: what is printed of the item that was created.

use vstd::prelude::*;

use crate::json::Json;
use crate::output::{meta_without_warnings, success, success_envelope, warnings_meta, Out, OutView, OutputFormat};
use crate::plugin::text_under;
use crate::text;

verus! {

/// What is printed of an item that was made.
pub open spec fn made_output(format: OutputFormat, value: crate::json::JsonView) -> Seq<OutView> {
    seq![
        if format == OutputFormat::Human {
            OutView::Text(text_under(value, "id"@) + "  "@ + text_under(value, "path"@))
        } else {
            OutView::Json(success(value, warnings_meta(Seq::empty())))
        },
    ]
}

/// What is printed of a new item: its object, or its id and its file.
pub fn emit(format: OutputFormat, value: Json) -> (r: Vec<Out>)
    ensures
        r.deep_view() == made_output(format, value.shape()),
{
    let line: Out = match format {
        OutputFormat::Human => {
            let id = crate::plugin::read_text(&value, "id");
            let path = crate::plugin::read_text(&value, "path");
            Out::Text(text::cat3(id.as_str(), "  ", path.as_str()))
        },
        _ => Out::Json(success_envelope(value, meta_without_warnings())),
    };
    let ghost view = line.deep_view();
    let out: Vec<Out> = vec![line];
    assert(out.deep_view() =~= seq![view]);
    out
}

/// A new item is told of by its id and its file, for people in one line.
pub proof fn law_a_new_item_is_told_of(
    value: crate::json::JsonView,
    id: Seq<char>,
    path: Seq<char>,
)
    ensures
        value.member("id"@) == Some(crate::json::JsonView::Text(id)) && value.member("path"@)
            == Some(crate::json::JsonView::Text(path)) ==> made_output(OutputFormat::Human, value)
            == seq![OutView::Text(id + "  "@ + path)],
        made_output(OutputFormat::Json, value)[0] matches OutView::Json(v) && v.member("data"@)
            == Some(value),
        made_output(OutputFormat::Jsonl, value) == made_output(OutputFormat::Json, value),
{
    crate::output::law_a_success_carries_its_data(value, warnings_meta(Seq::empty()));
}

} // verus!
