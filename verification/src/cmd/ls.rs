//! `clove ls`: list items with optional filters. `ready` and `blocked` share its plan.

use vstd::prelude::*;

use crate::cli::{order_named, FilterArgs, Order};
use crate::cmd::index_read::Source;
use crate::cmd::listing::{answer_objects, base_meta, emit, filters_object, lean_can_serve, lean_enough, list_meta, list_output, objects_from_answer, window, ListOpts, OptsView, Rows};
use crate::error::{CloveError, ErrorView};
use crate::json::{law_objects_hold_their_pairs, num, obj};
use crate::item_json::{field_names, parse_fields};
use crate::output::{Out, OutputFormat};
use crate::text;
use crate::view::{filters_of, limit_in_force, Filters, FiltersView, Page, CLI_LIMIT};

verus! {

/// How much of an item a list needs.
#[derive(Debug, Clone, Copy, PartialEq, Eq, Structural)]
pub enum Projection {
    /// A lean row is enough, so that any tier may answer.
    Lean,
    /// The whole frontmatter, from the files.
    Files,
    /// The whole frontmatter, from whichever tier has it.
    Full,
}

/// What a list command asks for.
#[derive(Debug, PartialEq, Eq)]
pub struct ListPlan {
    pub filters: Filters,
    pub order: Order,
    pub fields: Option<Vec<String>>,
    pub window: Page,
    pub projection: Projection,
    pub compact: bool,
}

/// The model of a [`ListPlan`].
pub struct PlanView {
    pub filters: FiltersView,
    pub order: Order,
    pub fields: Option<Seq<Seq<char>>>,
    pub window: Page,
    pub projection: Projection,
    pub compact: bool,
}

impl DeepView for ListPlan {
    type V = PlanView;

    open spec fn deep_view(&self) -> PlanView {
        PlanView {
            filters: self.filters.deep_view(),
            order: self.order,
            fields: self.fields.deep_view(),
            window: self.window,
            projection: self.projection,
            compact: self.compact,
        }
    }
}

/// The fields that `--fields` names.
pub open spec fn fields_asked(raw: Option<Seq<char>>) -> Option<Seq<Seq<char>>> {
    match raw {
        Some(s) => Some(field_names(text::pieces(s, ','))),
        None => None,
    }
}

/// The page that `--offset` and `--limit` ask for.
pub open spec fn window_asked(offset: Option<usize>, limit: Option<usize>) -> Page {
    Page {
        offset: match offset {
            Some(n) => n,
            None => 0,
        },
        limit: limit_in_force(limit, CLI_LIMIT),
    }
}

/// How much of an item a list with these fields needs.
pub open spec fn projection_for(fields: Option<Seq<Seq<char>>>, blocked: bool) -> Projection {
    if blocked {
        Projection::Full
    } else if lean_enough(fields) {
        Projection::Lean
    } else {
        Projection::Files
    }
}

/// The plan of `ls`, `ready` or `blocked`: a bad filter fails first, then a bad order.
pub open spec fn planned(args: FilterArgs, blocked: bool) -> Result<PlanView, ErrorView> {
    match filters_of(
        args.status.deep_view(),
        args.item_type.deep_view(),
        args.label.deep_view(),
        args.assignee.deep_view(),
        crate::cli::spelled(args.priority@),
        args.q.deep_view(),
    ) {
        Err(e) => Err(e),
        Ok(filters) => match order_named(args.sort.deep_view(), args.desc) {
            Err(e) => Err(e),
            Ok(order) => Ok(
                PlanView {
                    filters,
                    order,
                    fields: fields_asked(args.fields.deep_view()),
                    window: window_asked(args.offset, args.limit),
                    projection: projection_for(fields_asked(args.fields.deep_view()), blocked),
                    compact: args.compact,
                },
            ),
        },
    }
}

/// Reads the fields that `--fields` names.
pub fn asked_fields(raw: &Option<String>) -> (r: Option<Vec<String>>)
    ensures
        r.deep_view() == fields_asked(raw.deep_view()),
{
    match raw {
        Some(s) => Some(parse_fields(s.as_str())),
        None => None,
    }
}

/// Reads the arguments of a list. A projection that reaches outside the lean row pins the
/// list to the files; `blocked` always needs more, since no lean row says what blocks.
pub fn plan(args: &FilterArgs, blocked: bool) -> (r: Result<ListPlan, CloveError>)
    ensures
        crate::error::outcome(r) == planned(*args, blocked),
{
    let filters = match args.filters() {
        Ok(f) => f,
        Err(e) => return Err(e),
    };
    let order = match args.order() {
        Ok(o) => o,
        Err(e) => return Err(e),
    };
    let fields = asked_fields(&args.fields);
    let projection = if blocked {
        Projection::Full
    } else if lean_can_serve(fields.as_ref()) {
        Projection::Lean
    } else {
        Projection::Files
    };
    Ok(
        ListPlan {
            filters,
            order,
            fields,
            window: window(args.offset, args.limit),
            projection,
            compact: args.compact,
        },
    )
}

/// An answer to a list.
#[derive(Debug, PartialEq, Eq)]
pub struct ListAnswer {
    /// The page.
    pub rows: Rows,
    /// How many there are in all.
    pub total: usize,
    pub source: Source,
    pub warnings: Vec<String>,
}

/// What is said of a list beside its entries.
pub open spec fn answer_opts(plan: PlanView, answer: ListAnswer) -> OptsView {
    OptsView {
        total: answer.total as int,
        window: plan.window,
        fields: plan.fields,
        compact: plan.compact,
        source: answer.source.word(),
        sort: plan.order.field.word(),
        dir: plan.order.dir_word(),
        filters: Some(plan.filters),
        warnings: answer.warnings.deep_view(),
    }
}

/// Renders the answer to a list.
pub fn run(format: OutputFormat, plan: ListPlan, answer: ListAnswer) -> (r: Vec<Out>)
    ensures
        r.deep_view() == list_output(
            format,
            answer_objects(answer.rows),
            answer_opts(plan.deep_view(), answer),
        ),
{
    let objects = objects_from_answer(&answer.rows);
    let opts = ListOpts {
        total: answer.total,
        window: plan.window,
        fields: plan.fields,
        compact: plan.compact,
        source: answer.source.as_str().to_owned(),
        sort: plan.order.field.as_str().to_owned(),
        dir: plan.order.dir_str().to_owned(),
        filters: Some(plan.filters),
        warnings: answer.warnings,
    };
    emit(format, &objects, &opts)
}

/// Every list tells in `_meta` how many there are in all, and the limit in force, where 0 is
/// no limit: whatever the page shows.
pub proof fn law_lists_report_the_total_and_the_limit(o: OptsView, returned: int)
    ensures
        list_meta(o, returned).member("total"@) == Some(num(o.total)),
        list_meta(o, returned).member("limit"@) == Some(
            num(match o.window.limit {
                None => 0,
                Some(n) => n as int,
            }),
        ),
{
    reveal_strlit("limit");
    reveal_strlit("total");
    reveal_strlit("returned");
    reveal_strlit("offset");
    reveal_strlit("sort");
    reveal_strlit("dir");
    reveal_strlit("source");
    reveal_strlit("warnings");
    reveal_strlit("filters");
    assert("total"@[0] != "limit"@[0]);
    let base = base_meta(o, returned);
    let more = match o.filters {
        Some(f) => base.push(("filters"@, filters_object(f))),
        None => base,
    };
    assert(more[0].0 == "limit"@ && more[1].0 == "total"@);
    assert(list_meta(o, returned) == obj(more));
    law_objects_hold_their_pairs(more, 0);
    law_objects_hold_their_pairs(more, 1);
}

/// What a list is asked for is what its plan says: the offset and the limit, the fields, the
/// order and whether empty entries are dropped.
pub proof fn law_a_plan_says_what_was_asked(args: FilterArgs, blocked: bool)
    ensures
        planned(args, blocked) matches Ok(p) ==> {
            &&& p.window.offset == (match args.offset {
                Some(n) => n,
                None => 0,
            })
            &&& args.limit matches Some(n) ==> (n > 0 ==> p.window.limit == args.limit)
            &&& args.limit == Some(0usize) ==> p.window.limit is None
            &&& args.limit is None ==> p.window.limit == Some(CLI_LIMIT)
            &&& p.compact == args.compact
            &&& p.order.desc == args.desc
            &&& args.fields is None ==> p.fields is None
            &&& args.fields matches Some(raw) ==> (p.fields matches Some(f) && forall|name: Seq<
                char,
            >| #[trigger]
                f.contains(name) <==> name.len() > 0 && exists|i: int|
                    0 <= i < text::pieces(raw@, ',').len() && text::trimmed(
                        #[trigger] text::pieces(raw@, ',')[i],
                    ) == name)
            &&& p.filters.assignee == args.assignee.deep_view()
            &&& p.filters.q == args.q.deep_view()
            &&& p.filters.status.len() == args.status.len()
            &&& p.filters.item_type.len() == args.item_type.len()
            &&& blocked ==> p.projection == Projection::Full
            &&& !blocked ==> (p.projection == Projection::Lean <==> lean_enough(p.fields))
        },
        planned(args, blocked) is Err <==> filters_of(
            args.status.deep_view(),
            args.item_type.deep_view(),
            args.label.deep_view(),
            args.assignee.deep_view(),
            crate::cli::spelled(args.priority@),
            args.q.deep_view(),
        ) is Err || order_named(args.sort.deep_view(), args.desc) is Err,
{
    crate::view::law_a_filter_set_is_what_its_words_say(
        args.status.deep_view(),
        args.item_type.deep_view(),
        args.label.deep_view(),
        args.assignee.deep_view(),
        crate::cli::spelled(args.priority@),
        args.q.deep_view(),
    );
    if let Some(raw) = args.fields {
        let parts = text::pieces(raw@, ',');
        assert forall|name: Seq<char>| #[trigger] field_names(parts).contains(name) <==> name.len()
            > 0 && exists|i: int|
            0 <= i < parts.len() && text::trimmed(#[trigger] parts[i]) == name by {
            crate::item_json::law_asked_fields_are_the_parts(parts, name);
        }
    }
}

/// A list reports what was asked and what came back: the window, the order, the filters and
/// the fields of its plan, and the total, the source and the warnings of the answer.
pub proof fn law_a_list_reports_its_plan_and_its_answer(plan: PlanView, answer: ListAnswer)
    ensures
        ({
            let o = answer_opts(plan, answer);
            &&& o.total == answer.total
            &&& o.source == answer.source.word()
            &&& o.warnings == answer.warnings.deep_view()
            &&& o.window == plan.window
            &&& o.fields == plan.fields
            &&& o.compact == plan.compact
            &&& o.sort == plan.order.field.word()
            &&& o.dir == (if plan.order.desc {
                "desc"@
            } else {
                "asc"@
            })
            &&& o.filters == Some(plan.filters)
        }),
{
}

} // verus!
