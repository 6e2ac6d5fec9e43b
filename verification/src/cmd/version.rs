//! `clove version`.

use vstd::prelude::*;

use crate::json::{
    law_distinct_pairs_are_members, num, number, obj, object, string, string_or_null, text_or_null,
    Json, JsonView,
};
use crate::output::{
    law_a_success_carries_its_data, meta_without_warnings, pairs, success, success_envelope,
    warnings_meta, Out, OutView, OutputFormat,
};
use crate::plugin::CURRENT_SCHEMA_VERSION;
use crate::text;

verus! {

/// What `clove version` prints.
pub open spec fn version_output(
    format: OutputFormat,
    version: Seq<char>,
    git_hash: Option<Seq<char>>,
    build_date: Option<Seq<char>>,
) -> Seq<OutView> {
    seq![
        if format == OutputFormat::Human {
            OutView::Text("clove "@ + version)
        } else {
            OutView::Json(
                success(
                    obj(
                        seq![
                            ("clove"@, JsonView::Text(version)),
                            ("schema"@, num(CURRENT_SCHEMA_VERSION as int)),
                            ("git_hash"@, text_or_null(git_hash)),
                            ("build_date"@, text_or_null(build_date)),
                        ],
                    ),
                    warnings_meta(Seq::empty()),
                ),
            )
        },
    ]
}

/// The version and the schema. The `schema` field lets agents notice a new schema.
pub fn run(
    format: OutputFormat,
    version: &str,
    git_hash: Option<&str>,
    build_date: Option<&str>,
) -> (r: Vec<Out>)
    ensures
        r.deep_view() == version_output(
            format,
            version@,
            text::opt_view(git_hash),
            text::opt_view(build_date),
        ),
{
    let line: Out = match format {
        OutputFormat::Human => Out::Text(text::cat2("clove ", version)),
        _ => {
            let v: Vec<(String, Json)> = vec![
                ("clove".to_owned(), string(version)),
                ("schema".to_owned(), number(CURRENT_SCHEMA_VERSION as u64)),
                ("git_hash".to_owned(), string_or_null(git_hash)),
                ("build_date".to_owned(), string_or_null(build_date)),
            ];
            assert(pairs(v@) =~= seq![
                ("clove"@, JsonView::Text(version@)),
                ("schema"@, num(CURRENT_SCHEMA_VERSION as int)),
                ("git_hash"@, text_or_null(text::opt_view(git_hash))),
                ("build_date"@, text_or_null(text::opt_view(build_date))),
            ]);
            Out::Json(success_envelope(object(v), meta_without_warnings()))
        },
    };
    let ghost view = line.deep_view();
    let out: Vec<Out> = vec![line];
    assert(out.deep_view() =~= seq![view]);
    out
}

/// The version is told to people and to programs, and programs are told the schema and what
/// is known of the build.
pub proof fn law_the_version_is_told(
    version: Seq<char>,
    git_hash: Option<Seq<char>>,
    build_date: Option<Seq<char>>,
)
    ensures
        version_output(OutputFormat::Human, version, git_hash, build_date)[0] == OutView::Text(
            "clove "@ + version,
        ),
        version_output(OutputFormat::Json, version, git_hash, build_date)[0] matches OutView::Json(v)
            && v.member("data"@) matches Some(d) && {
            &&& d.member("clove"@) == Some(JsonView::Text(version))
            &&& d.member("schema"@) == Some(num(CURRENT_SCHEMA_VERSION as int))
            &&& git_hash matches Some(h) ==> d.member("git_hash"@) == Some(JsonView::Text(h))
            &&& build_date matches Some(b) ==> d.member("build_date"@) == Some(JsonView::Text(b))
            &&& git_hash is None ==> d.member("git_hash"@) == Some(JsonView::Null)
            &&& build_date is None ==> d.member("build_date"@) == Some(JsonView::Null)
        },
{
    let data = obj(
        seq![
            ("clove"@, JsonView::Text(version)),
            ("schema"@, num(CURRENT_SCHEMA_VERSION as int)),
            ("git_hash"@, text_or_null(git_hash)),
            ("build_date"@, text_or_null(build_date)),
        ],
    );
    law_a_success_carries_its_data(data, warnings_meta(Seq::empty()));
    reveal_strlit("clove");
    reveal_strlit("schema");
    reveal_strlit("git_hash");
    reveal_strlit("build_date");
    let p = seq![
        ("clove"@, JsonView::Text(version)),
        ("schema"@, num(CURRENT_SCHEMA_VERSION as int)),
        ("git_hash"@, text_or_null(git_hash)),
        ("build_date"@, text_or_null(build_date)),
    ];
    assert(data == obj(p));
    assert(p[0].0 == "clove"@ && p[1].0 == "schema"@ && p[2].0 == "git_hash"@ && p[3].0 == "build_date"@);
    law_distinct_pairs_are_members(p);
}

} // verus!
