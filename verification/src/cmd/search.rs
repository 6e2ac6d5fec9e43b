//! `clove search`: a scan of titles, labels and bodies. There is no index or daemon tier:
//! both would answer a narrower question than a search for any part of a text.

use vstd::prelude::*;

use crate::cli::SearchArgs;
use crate::cmd::index_read::Source;
use crate::cmd::listing::{answer_objects, emit, list_output, objects_from_answer, window, ListOpts, OptsView, Rows};
use crate::cmd::ls::{asked_fields, fields_asked, window_asked};
use crate::error::{CloveError, ErrorView};
use crate::output::{Out, OutputFormat};
use crate::ranking::{as_places, cut, found, search_order_named, search_order_of, search_rows, SearchOrder};
use crate::registry::install::borrowed;
use crate::view::{page_of, Page, Row};

verus! {

/// What a search asks for.
#[derive(Debug, PartialEq, Eq)]
pub struct SearchPlan {
    pub text: String,
    pub order: SearchOrder,
    pub fields: Option<Vec<String>>,
    pub window: Page,
    pub compact: bool,
}

/// The model of a [`SearchPlan`].
pub struct SearchView {
    pub text: Seq<char>,
    pub order: SearchOrder,
    pub fields: Option<Seq<Seq<char>>>,
    pub window: Page,
    pub compact: bool,
}

impl DeepView for SearchPlan {
    type V = SearchView;

    open spec fn deep_view(&self) -> SearchView {
        SearchView {
            text: self.text@,
            order: self.order,
            fields: self.fields.deep_view(),
            window: self.window,
            compact: self.compact,
        }
    }
}

/// The plan of a search.
pub open spec fn search_planned(args: SearchArgs) -> Result<SearchView, ErrorView> {
    match search_order_named(args.sort.deep_view(), args.desc) {
        Err(e) => Err(e),
        Ok(order) => Ok(
            SearchView {
                text: args.text@,
                order,
                fields: fields_asked(args.fields.deep_view()),
                window: window_asked(args.offset, args.limit),
                compact: args.compact,
            },
        ),
    }
}

/// Reads the arguments of a search.
pub fn plan(args: &SearchArgs) -> (r: Result<SearchPlan, CloveError>)
    ensures
        crate::error::outcome(r) == search_planned(*args),
{
    let order = match search_order_of(borrowed(&args.sort), args.desc) {
        Ok(o) => o,
        Err(e) => return Err(e),
    };
    Ok(
        SearchPlan {
            text: args.text.clone(),
            order,
            fields: asked_fields(&args.fields),
            window: window(args.offset, args.limit),
            compact: args.compact,
        },
    )
}

/// Searches the items: the places of the page, and how many hits there are in all.
pub fn hits(plan: &SearchPlan, rows: &Vec<Row>, bodies: &Vec<String>) -> (r: (Vec<usize>, usize))
    requires
        rows.len() == bodies.len(),
    ensures
        as_places(r.0@) == page_of(
            found(plan.order, rows.deep_view(), bodies.deep_view(), plan.text@),
            plan.window,
        ),
        r.1 == found(plan.order, rows.deep_view(), bodies.deep_view(), plan.text@).len(),
        forall|i: int| 0 <= i < r.0.len() ==> #[trigger] r.0@[i] < rows.len(),
{
    let places = search_rows(plan.order, rows, bodies, plan.text.as_str());
    assert(as_places(places@).len() == places.len());
    let page = cut(&places, plan.window);
    assert forall|i: int| 0 <= i < page.len() implies #[trigger] page@[i] < rows.len() by {
        let k = choose|k: int| 0 <= k < places.len() && places@[k] == page@[i];
        assert(places@[k] < rows.len());
    }
    (page, places.len())
}

/// What is said of a search beside its hits. It takes no filters, so it echoes none, and
/// the files always answer it.
pub open spec fn search_opts(plan: SearchView, total: int, warnings: Seq<Seq<char>>) -> OptsView {
    OptsView {
        total,
        window: plan.window,
        fields: plan.fields,
        compact: plan.compact,
        source: Source::Files.word(),
        sort: plan.order.sort_word(),
        dir: plan.order.dir_word(),
        filters: None,
        warnings,
    }
}

/// Renders the hits of a search.
pub fn run(
    format: OutputFormat,
    plan: SearchPlan,
    rows: &Rows,
    total: usize,
    warnings: Vec<String>,
) -> (r: Vec<Out>)
    ensures
        r.deep_view() == list_output(
            format,
            answer_objects(*rows),
            search_opts(plan.deep_view(), total as int, warnings.deep_view()),
        ),
{
    let objects = objects_from_answer(rows);
    let opts = ListOpts {
        total,
        window: plan.window,
        fields: plan.fields,
        compact: plan.compact,
        source: Source::Files.as_str().to_owned(),
        sort: plan.order.reported_sort().to_owned(),
        dir: plan.order.dir_str().to_owned(),
        filters: None,
        warnings,
    };
    emit(format, &objects, &opts)
}

/// A search looks for the text that was given, in the order, with the fields and in the
/// window that were asked for.
pub proof fn law_a_search_is_what_was_asked(args: SearchArgs)
    ensures
        search_planned(args) matches Ok(p) ==> {
            &&& p.text == args.text@
            &&& p.order.desc == args.desc
            &&& args.sort is None <==> p.order.field is None
            &&& args.sort matches Some(w) ==> (p.order.field matches Some(f) && f.word() == w@)
            &&& p.window.offset == (match args.offset {
                Some(n) => n,
                None => 0,
            })
            &&& args.limit matches Some(n) ==> (n > 0 ==> p.window.limit == args.limit)
            &&& args.limit == Some(0usize) ==> p.window.limit is None
            &&& p.compact == args.compact
            &&& args.fields is None <==> p.fields is None
        },
{
    if let Some(w) = args.sort {
        crate::cli::law_sort_fields_read_back(w@);
    }
}

/// What a search reports: how many items it found, where they came from, and its own order
/// and window.
pub proof fn law_a_search_reports_itself(plan: SearchView, total: int, warnings: Seq<Seq<char>>)
    ensures
        ({
            let o = search_opts(plan, total, warnings);
            &&& o.total == total && o.warnings == warnings
            &&& o.window == plan.window && o.fields == plan.fields && o.compact == plan.compact
            &&& o.source == Source::Files.word()
            &&& plan.order.field matches Some(f) ==> o.sort == f.word()
            &&& plan.order.field is None ==> o.sort == "relevance"@
            &&& o.dir == (if plan.order.desc {
                "desc"@
            } else {
                "asc"@
            })
            &&& o.filters is None
        }),
{
}

} // verus!
