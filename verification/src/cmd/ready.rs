//! `clove ready`: items that can be worked on now.

use vstd::prelude::*;

use crate::cmd::listing::{answer_objects, list_output};
use crate::cmd::ls::{answer_opts, ListAnswer, ListPlan};
use crate::cmd::plugin::push_lines;
use crate::output::{Out, OutView, OutputFormat};
use crate::text;

verus! {

/// The warnings of an answer, for people on stderr: items that are left out because what
/// they depend on is missing.
pub open spec fn warned(warnings: Seq<Seq<char>>) -> Seq<OutView> {
    Seq::new(warnings.len(), |i: int| OutView::Note("warning: "@ + warnings[i]))
}

/// The notes of warnings.
pub fn warning_notes(warnings: &Vec<String>) -> (r: Vec<Out>)
    ensures
        r.deep_view() == warned(warnings.deep_view()),
{
    let ghost all = warnings.deep_view();
    let mut out: Vec<Out> = Vec::new();
    let mut i: usize = 0;
    while i < warnings.len()
        invariant
            i <= warnings.len(),
            all == warnings.deep_view(),
            out.len() == i,
            forall|j: int|
                0 <= j < i ==> (#[trigger] out@[j]).deep_view() == OutView::Note(
                    "warning: "@ + all[j],
                ),
        decreases warnings.len() - i,
    {
        assert(all[i as int] == warnings@[i as int]@);
        out.push(Out::Note(text::cat2("warning: ", warnings[i].as_str())));
        i += 1;
    }
    assert(out.deep_view() =~= warned(all));
    out
}

/// Renders the answer: the warnings for people, unless they asked for quiet, then the list.
pub fn run(format: OutputFormat, plan: ListPlan, answer: ListAnswer, quiet: bool) -> (r: Vec<Out>)
    ensures
        r.deep_view() == (if !quiet && format == OutputFormat::Human {
            warned(answer.warnings.deep_view())
        } else {
            Seq::empty()
        }) + list_output(
            format,
            answer_objects(answer.rows),
            answer_opts(plan.deep_view(), answer),
        ),
{
    let mut out: Vec<Out> = if !quiet && format == OutputFormat::Human {
        warning_notes(&answer.warnings)
    } else {
        Vec::new()
    };
    assert(quiet || format != OutputFormat::Human ==> out.deep_view() =~= Seq::<OutView>::empty());
    let lines = crate::cmd::ls::run(format, plan, answer);
    push_lines(&mut out, lines);
    out
}

/// Each warning is told, in order.
pub proof fn law_each_warning_is_told(warnings: Seq<Seq<char>>, i: int)
    ensures
        warned(warnings).len() == warnings.len(),
        0 <= i < warnings.len() ==> warned(warnings)[i] == OutView::Note("warning: "@ + warnings[i]),
{
}

} // verus!
