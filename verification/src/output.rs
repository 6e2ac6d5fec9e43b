//! Output rendering: the JSON envelope and human text.
//!
//! JSON, and errors in JSON mode, go to stdout; human narrative and warnings go to
//! stderr. A JSON consumer therefore always gets valid JSON on stdout.

use vstd::prelude::*;

use crate::error::{coded, told, CloveError, ErrorView};
use crate::exit::{classify, exit_of, ExitCode};
use crate::json::{law_distinct_pairs_are_members, num, number, obj, object, string, Json, JsonView};
use crate::json_text::{json_compact, ordered};
use crate::text;

verus! {

/// The envelope schema version (the `v` field).
pub const ENVELOPE_VERSION: u32 = 1;

/// How results are printed.
#[derive(Debug, Clone, Copy, PartialEq, Eq, Structural)]
pub enum OutputFormat {
    Human,
    Json,
    Jsonl,
}

impl OutputFormat {
    /// The word for a format.
    pub open spec fn word(self) -> Seq<char> {
        match self {
            OutputFormat::Human => "human"@,
            OutputFormat::Json => "json"@,
            OutputFormat::Jsonl => "jsonl"@,
        }
    }

    pub fn as_str(self) -> (r: &'static str)
        ensures
            r@ == self.word(),
    {
        match self {
            OutputFormat::Human => "human",
            OutputFormat::Json => "json",
            OutputFormat::Jsonl => "jsonl",
        }
    }

    /// Reads the word for a format.
    pub fn parse(raw: &str) -> (r: Option<OutputFormat>)
        ensures
            r == format_of(raw@),
    {
        if text::same(raw, "human") {
            Some(OutputFormat::Human)
        } else if text::same(raw, "json") {
            Some(OutputFormat::Json)
        } else if text::same(raw, "jsonl") {
            Some(OutputFormat::Jsonl)
        } else {
            None
        }
    }
}

/// The format that a word stands for.
pub open spec fn format_of(raw: Seq<char>) -> Option<OutputFormat> {
    if raw == "human"@ {
        Some(OutputFormat::Human)
    } else if raw == "json"@ {
        Some(OutputFormat::Json)
    } else if raw == "jsonl"@ {
        Some(OutputFormat::Jsonl)
    } else {
        None
    }
}

/// Every format is read back from its word.
pub proof fn law_formats_read_back(f: OutputFormat)
    ensures
        format_of(f.word()) == Some(f),
{
    reveal_strlit("human");
    reveal_strlit("json");
    reveal_strlit("jsonl");
    assert("json"@.len() != "jsonl"@.len());
    assert("json"@.len() != "human"@.len());
    assert("jsonl"@[0] != "human"@[0]);
}

/// The format in force: the flag, or else the environment's if it names one, or else
/// the repository's default, or else the human one.
pub open spec fn format_in_force(
    flag: Option<OutputFormat>,
    env: Option<Seq<char>>,
    config_default: Option<OutputFormat>,
) -> OutputFormat {
    if flag is Some {
        flag->0
    } else if env matches Some(v) && format_of(v) is Some {
        format_of(env->0)->0
    } else if config_default is Some {
        config_default->0
    } else {
        OutputFormat::Human
    }
}

/// Resolves the effective output format. `env` is the value of `$CLOVE_FORMAT`.
pub fn resolve_format(
    flag: Option<OutputFormat>,
    env: Option<&str>,
    config_default: Option<OutputFormat>,
) -> (r: OutputFormat)
    ensures
        r == format_in_force(flag, text::opt_view(env), config_default),
{
    if let Some(format) = flag {
        return format;
    }
    if let Some(value) = env {
        if let Some(format) = OutputFormat::parse(value) {
            return format;
        }
    }
    match config_default {
        Some(format) => format,
        None => OutputFormat::Human,
    }
}

// ---- What is printed ----------------------------------------------------------

/// One line of output.
#[derive(Debug, PartialEq, Eq)]
pub enum Out {
    /// A JSON value on a line of stdout.
    Json(Json),
    /// A line of stdout.
    Text(String),
    /// A line of stderr.
    Note(String),
}

/// The model of an [`Out`].
pub enum OutView {
    Json(JsonView),
    Text(Seq<char>),
    Note(Seq<char>),
}

impl DeepView for Out {
    type V = OutView;

    open spec fn deep_view(&self) -> OutView {
        match *self {
            Out::Json(j) => OutView::Json(j.shape()),
            Out::Text(s) => OutView::Text(s@),
            Out::Note(s) => OutView::Note(s@),
        }
    }
}

impl OutView {
    /// The characters of the line.
    pub open spec fn characters(self) -> Seq<char> {
        match self {
            OutView::Json(j) => json_compact(ordered(j)),
            OutView::Text(s) => s,
            OutView::Note(s) => s,
        }
    }
}

impl Out {
    /// The characters of the line, without its end.
    pub fn line(&self) -> (r: String)
        ensures
            r@ == self.deep_view().characters(),
    {
        match self {
            Out::Json(j) => j.to_text(),
            Out::Text(s) => s.clone(),
            Out::Note(s) => s.clone(),
        }
    }

    /// Does the line go to stdout?
    pub fn on_stdout(&self) -> (r: bool)
        ensures
            r == !(self.deep_view() is Note),
    {
        match self {
            Out::Note(_) => false,
            _ => true,
        }
    }
}

/// A successful envelope `{ v, ok: true, data, _meta }`.
pub open spec fn success(data: JsonView, meta: JsonView) -> JsonView {
    obj(
        seq![
            ("v"@, num(1)),
            ("ok"@, JsonView::Bool(true)),
            ("data"@, data),
            ("_meta"@, meta),
        ],
    )
}

/// The list of one pair of texts and values, for building an object.
pub open spec fn pairs(v: Seq<(String, Json)>) -> Seq<(Seq<char>, JsonView)> {
    crate::json::entries(v)
}

/// Builds a successful envelope.
pub fn success_envelope(data: Json, meta: Json) -> (r: Json)
    ensures
        r.shape() == success(data.shape(), meta.shape()),
{
    let v: Vec<(String, Json)> = vec![
        ("v".to_owned(), number(1)),
        ("ok".to_owned(), Json::Bool(true)),
        ("data".to_owned(), data),
        ("_meta".to_owned(), meta),
    ];
    assert(pairs(v@) =~= seq![
        ("v"@, num(1)),
        ("ok"@, JsonView::Bool(true)),
        ("data"@, data.shape()),
        ("_meta"@, meta.shape()),
    ]);
    object(v)
}

/// A line of a `jsonl` list, `{ v, ok: true, data }`.
pub open spec fn item_line(data: JsonView) -> JsonView {
    obj(seq![("v"@, num(1)), ("ok"@, JsonView::Bool(true)), ("data"@, data)])
}

/// Builds one line of a `jsonl` list.
pub fn item_envelope(data: Json) -> (r: Json)
    ensures
        r.shape() == item_line(data.shape()),
{
    let v: Vec<(String, Json)> = vec![
        ("v".to_owned(), number(1)),
        ("ok".to_owned(), Json::Bool(true)),
        ("data".to_owned(), data),
    ];
    assert(pairs(v@) =~= seq![
        ("v"@, num(1)),
        ("ok"@, JsonView::Bool(true)),
        ("data"@, data.shape()),
    ]);
    object(v)
}

/// One line per element, each independently valid JSON.
pub open spec fn item_lines(items: Seq<JsonView>) -> Seq<OutView> {
    Seq::new(items.len(), |i: int| OutView::Json(item_line(items[i])))
}

/// One `{ v, ok, data }` line per element (the `--format jsonl` shape).
pub fn jsonl_lines(items: &Vec<Json>) -> (r: Vec<Out>)
    ensures
        r.deep_view() == item_lines(items.deep_view()),
{
    let ghost all = items.deep_view();
    let mut out: Vec<Out> = Vec::new();
    let mut i: usize = 0;
    while i < items.len()
        invariant
            i <= items.len(),
            all == items.deep_view(),
            out.len() == i,
            forall|j: int|
                0 <= j < i ==> (#[trigger] out@[j]).deep_view() == OutView::Json(
                    item_line(all[j]),
                ),
        decreases items.len() - i,
    {
        out.push(Out::Json(item_envelope(items[i].copy())));
        i += 1;
    }
    assert(out.deep_view() =~= item_lines(all));
    out
}

/// An error envelope `{ v, ok: false, error: { code, message, exit } }`.
pub open spec fn failure(code: Seq<char>, message: Seq<char>, exit: u8) -> JsonView {
    obj(
        seq![
            ("v"@, num(1)),
            ("ok"@, JsonView::Bool(false)),
            (
                "error"@,
                obj(
                    seq![
                        ("code"@, JsonView::Text(code)),
                        ("message"@, JsonView::Text(message)),
                        ("exit"@, num(exit as int)),
                    ],
                ),
            ),
        ],
    )
}

/// Builds an error envelope.
pub fn failure_envelope(code: &str, message: &str, exit: u8) -> (r: Json)
    ensures
        r.shape() == failure(code@, message@, exit),
{
    let e: Vec<(String, Json)> = vec![
        ("code".to_owned(), string(code)),
        ("message".to_owned(), string(message)),
        ("exit".to_owned(), number(exit as u64)),
    ];
    assert(pairs(e@) =~= seq![
        ("code"@, JsonView::Text(code@)),
        ("message"@, JsonView::Text(message@)),
        ("exit"@, num(exit as int)),
    ]);
    let error = object(e);
    let v: Vec<(String, Json)> = vec![
        ("v".to_owned(), number(1)),
        ("ok".to_owned(), Json::Bool(false)),
        ("error".to_owned(), error),
    ];
    assert(pairs(v@) =~= seq![
        ("v"@, num(1)),
        ("ok"@, JsonView::Bool(false)),
        ("error"@, error.shape()),
    ]);
    object(v)
}

/// What is printed of an error that exits with `exit`: the envelope in a JSON format,
/// a line for people otherwise, and nothing for people who asked for quiet.
pub open spec fn error_output(
    format: OutputFormat,
    e: ErrorView,
    exit: ExitCode,
    quiet: bool,
) -> Seq<OutView> {
    if format == OutputFormat::Human {
        if quiet {
            Seq::empty()
        } else {
            seq![OutView::Note("error: "@ + told(e))]
        }
    } else {
        seq![OutView::Json(failure(coded(e).0, told(e), exit.number()))]
    }
}

/// What is printed of an error, and the code that the process exits with.
pub fn emit_error(format: OutputFormat, error: &CloveError, quiet: bool) -> (r: (
    Vec<Out>,
    ExitCode,
))
    ensures
        exit_of(error.deep_view(), r.1),
        r.0.deep_view() == error_output(format, error.deep_view(), r.1, quiet),
{
    let (exit, code) = classify(error);
    let message = error.to_string();
    let out: Vec<Out> = match format {
        OutputFormat::Human => if quiet {
            Vec::new()
        } else {
            vec![Out::Note(text::cat2("error: ", message.as_str()))]
        },
        _ => vec![
            Out::Json(failure_envelope(code.as_str(), message.as_str(), exit.code())),
        ],
    };
    assert(out.deep_view() =~= error_output(format, error.deep_view(), exit, quiet));
    (out, exit)
}

/// The names of the installed plugins, as the message about an unknown subcommand
/// lists them.
pub open spec fn installed_note(installed: Seq<Seq<char>>) -> Seq<char> {
    if installed.len() == 0 {
        "no plugins are installed"@
    } else {
        "installed plugins: "@ + text::joined(installed, ", "@)
    }
}

/// What is said of a subcommand that is neither built in nor a plugin.
pub open spec fn unknown_subcommand(
    name: Seq<char>,
    binary: Seq<char>,
    installed: Seq<Seq<char>>,
) -> Seq<char> {
    "unknown subcommand `"@ + name + "`: no `"@ + binary + "` on the plugin search path; "@
        + installed_note(installed)
}

/// What is printed of a subcommand that is neither built in nor a plugin. It is a
/// usage error.
pub fn emit_unknown_subcommand(
    format: OutputFormat,
    name: &str,
    binary: &str,
    installed: &Vec<String>,
    quiet: bool,
) -> (r: (Vec<Out>, ExitCode))
    ensures
        r.1 == ExitCode::Usage,
        r.0.deep_view() == (if format == OutputFormat::Human {
            if quiet {
                Seq::empty()
            } else {
                seq![
                    OutView::Note(
                        "error: "@ + unknown_subcommand(name@, binary@, installed.deep_view()),
                    ),
                ]
            }
        } else {
            seq![
                OutView::Json(
                    failure(
                        "UNKNOWN_SUBCOMMAND"@,
                        unknown_subcommand(name@, binary@, installed.deep_view()),
                        1,
                    ),
                ),
            ]
        }),
{
    let note = if installed.len() == 0 {
        "no plugins are installed".to_owned()
    } else {
        let names = text::join(installed, ", ");
        text::cat2("installed plugins: ", names.as_str())
    };
    assert(installed.deep_view().len() == installed.len());
    let message = text::cat6(
        "unknown subcommand `",
        name,
        "`: no `",
        binary,
        "` on the plugin search path; ",
        note.as_str(),
    );
    let out: Vec<Out> = match format {
        OutputFormat::Human => if quiet {
            Vec::new()
        } else {
            vec![Out::Note(text::cat2("error: ", message.as_str()))]
        },
        _ => vec![Out::Json(failure_envelope("UNKNOWN_SUBCOMMAND", message.as_str(), 1))],
    };
    proof {
        let expected = if format == OutputFormat::Human {
            if quiet {
                Seq::empty()
            } else {
                seq![
                    OutView::Note(
                        "error: "@ + unknown_subcommand(name@, binary@, installed.deep_view()),
                    ),
                ]
            }
        } else {
            seq![
                OutView::Json(
                    failure(
                        "UNKNOWN_SUBCOMMAND"@,
                        unknown_subcommand(name@, binary@, installed.deep_view()),
                        1,
                    ),
                ),
            ]
        };
        assert(out.deep_view() =~= expected);
    }
    (out, ExitCode::Usage)
}

/// `{ "warnings": [...] }`, the `_meta` of a single-object response.
pub open spec fn warnings_meta(warnings: Seq<Seq<char>>) -> JsonView {
    obj(seq![("warnings"@, crate::json::texts(warnings))])
}

pub fn meta_with_warnings(warnings: &Vec<String>) -> (r: Json)
    ensures
        r.shape() == warnings_meta(warnings.deep_view()),
{
    let v: Vec<(String, Json)> = vec![
        ("warnings".to_owned(), crate::json::strings(warnings)),
    ];
    assert(pairs(v@) =~= seq![("warnings"@, crate::json::texts(warnings.deep_view()))]);
    object(v)
}

/// The `_meta` of a response without warnings.
pub fn meta_without_warnings() -> (r: Json)
    ensures
        r.shape() == warnings_meta(Seq::empty()),
{
    let none: Vec<String> = Vec::new();
    assert(none.deep_view() =~= Seq::<Seq<char>>::empty());
    meta_with_warnings(&none)
}

/// In a JSON format stdout carries nothing but JSON, whatever the error is.
pub proof fn law_errors_keep_stdout_json(
    format: OutputFormat,
    e: ErrorView,
    exit: ExitCode,
    quiet: bool,
    i: int,
)
    requires
        0 <= i < error_output(format, e, exit, quiet).len(),
    ensures
        format != OutputFormat::Human ==> error_output(format, e, exit, quiet)[i] is Json,
        format == OutputFormat::Human ==> error_output(format, e, exit, quiet)[i] is Note,
{
}

/// A success carries its data and what is said about it, and says that it is one.
pub proof fn law_a_success_carries_its_data(data: JsonView, meta: JsonView)
    ensures
        success(data, meta).member("v"@) == Some(num(1)),
        success(data, meta).member("ok"@) == Some(JsonView::Bool(true)),
        success(data, meta).member("data"@) == Some(data),
        success(data, meta).member("_meta"@) == Some(meta),
{
    reveal_strlit("v");
    reveal_strlit("ok");
    reveal_strlit("data");
    reveal_strlit("_meta");
    let p = seq![
        ("v"@, num(1)),
        ("ok"@, JsonView::Bool(true)),
        ("data"@, data),
        ("_meta"@, meta),
    ];
    assert(success(data, meta) == obj(p));
    assert(p[0].0 == "v"@ && p[1].0 == "ok"@ && p[2].0 == "data"@ && p[3].0 == "_meta"@);
    law_distinct_pairs_are_members(p);
}

/// A line of a list carries its data and says that it is a success.
pub proof fn law_a_line_carries_its_data(data: JsonView)
    ensures
        item_line(data).member("v"@) == Some(num(1)),
        item_line(data).member("ok"@) == Some(JsonView::Bool(true)),
        item_line(data).member("data"@) == Some(data),
{
    reveal_strlit("v");
    reveal_strlit("ok");
    reveal_strlit("data");
    let p = seq![
        ("v"@, num(1)),
        ("ok"@, JsonView::Bool(true)),
        ("data"@, data),
    ];
    assert(item_line(data) == obj(p));
    assert(p[0].0 == "v"@ && p[1].0 == "ok"@ && p[2].0 == "data"@);
    law_distinct_pairs_are_members(p);
}

/// A failure says that it is one, with its code, what happened and how the program ends.
pub proof fn law_a_failure_tells_its_code(code: Seq<char>, message: Seq<char>, exit: u8)
    ensures
        failure(code, message, exit).member("v"@) == Some(num(1)),
        failure(code, message, exit).member("ok"@) == Some(JsonView::Bool(false)),
        failure(code, message, exit).member("error"@) matches Some(e) && e.member("code"@) == Some(
            JsonView::Text(code),
        ) && e.member("message"@) == Some(JsonView::Text(message)) && e.member("exit"@) == Some(
            num(exit as int),
        ),
{
    let e = obj(
        seq![
            ("code"@, JsonView::Text(code)),
            ("message"@, JsonView::Text(message)),
            ("exit"@, num(exit as int)),
        ],
    );
    reveal_strlit("code");
    reveal_strlit("message");
    reveal_strlit("exit");
    let q = seq![
        ("code"@, JsonView::Text(code)),
        ("message"@, JsonView::Text(message)),
        ("exit"@, num(exit as int)),
    ];
    assert(e == obj(q));
    assert(q[0].0 == "code"@ && q[1].0 == "message"@ && q[2].0 == "exit"@);
    assert("code"@[0] != "exit"@[0]);
    law_distinct_pairs_are_members(q);
    reveal_strlit("v");
    reveal_strlit("ok");
    reveal_strlit("error");
    let p = seq![
        ("v"@, num(1)),
        ("ok"@, JsonView::Bool(false)),
        ("error"@, e),
    ];
    assert(failure(code, message, exit) == obj(p));
    assert(p[0].0 == "v"@ && p[1].0 == "ok"@ && p[2].0 == "error"@);
    law_distinct_pairs_are_members(p);
}

/// An error is told as it is in every format, with its own code and exit.
pub proof fn law_an_error_is_told_in_every_format(e: ErrorView, exit: ExitCode)
    ensures
        error_output(OutputFormat::Human, e, exit, false) == seq![
            OutView::Note("error: "@ + told(e)),
        ],
        error_output(OutputFormat::Human, e, exit, true).len() == 0,
        forall|quiet: bool|
            (#[trigger] error_output(OutputFormat::Json, e, exit, quiet)) == seq![
                OutView::Json(failure(coded(e).0, told(e), exit.number())),
            ] && error_output(OutputFormat::Jsonl, e, exit, quiet) == error_output(
                OutputFormat::Json,
                e,
                exit,
                quiet,
            ),
{
}

/// The format is the one of the flag, else of the environment if it names one, else of the
/// configuration, else the one for people.
pub proof fn law_the_flag_decides_the_format(
    f: OutputFormat,
    g: OutputFormat,
    env: Option<Seq<char>>,
    raw: Seq<char>,
    config: Option<OutputFormat>,
)
    ensures
        format_in_force(Some(f), env, config) == f,
        format_in_force(None, Some(g.word()), config) == g,
        format_of(raw) is None ==> format_in_force(None, Some(raw), Some(f)) == f,
        format_in_force(None, None, Some(f)) == f,
        format_of(raw) is None ==> format_in_force(None, Some(raw), None) == OutputFormat::Human,
        format_in_force(None, None, None) == OutputFormat::Human,
        format_of(raw) matches Some(x) ==> raw == x.word(),
{
    law_formats_read_back(g);
}

/// An unknown command is named, with the file that was looked for and every plugin there is.
pub proof fn law_an_unknown_command_lists_the_plugins(
    name: Seq<char>,
    binary: Seq<char>,
    installed: Seq<Seq<char>>,
    i: int,
)
    ensures
        text::begins(
            unknown_subcommand(name, binary, installed),
            "unknown subcommand `"@ + name + "`: no `"@ + binary,
        ),
        0 <= i < installed.len() ==> text::occurs(
            unknown_subcommand(name, binary, installed),
            installed[i],
        ),
        installed.len() == 0 ==> text::ends(
            unknown_subcommand(name, binary, installed),
            "no plugins are installed"@,
        ),
{
    let s = unknown_subcommand(name, binary, installed);
    let front = "unknown subcommand `"@ + name + "`: no `"@ + binary;
    assert(s.take(front.len() as int) =~= front);
    let whole = front + "` on the plugin search path; "@;
    if 0 <= i < installed.len() {
        let list = text::joined(installed, ", "@);
        text::law_joined_parts_occur(installed, ", "@, i);
        text::lemma_occurs_in_back("installed plugins: "@, list, installed[i]);
        text::lemma_occurs_in_back(whole, "installed plugins: "@ + list, installed[i]);
    }
    let none = "no plugins are installed"@;
    assert(installed.len() == 0 ==> s.skip(s.len() - none.len()) =~= none);
}

/// Warnings stand under their key, each in its place.
pub proof fn law_warnings_are_carried(warnings: Seq<Seq<char>>)
    ensures
        warnings_meta(warnings).member("warnings"@) == Some(crate::json::texts(warnings)),
{
    let p = seq![("warnings"@, crate::json::texts(warnings))];
    assert(warnings_meta(warnings) == obj(p));
    assert(p[0].0 == "warnings"@);
    law_distinct_pairs_are_members(p);
}

} // verus!
