//! The plugin-aware `--help` of the `import`, `export` and `sync` multiplexers.
//!
//! A bare `<mux> --help` is recognized in the arguments before they are parsed, and
//! the help of that subcommand gets a section on the providers that are installed.
//! Every other command line is left to the parser.

use vstd::prelude::*;

use crate::plugin::{InfoView, PluginInfo, ProbeView, ProbedInfo};
use crate::text;

verus! {

/// The name of a flag, without a `=value` behind it.
pub open spec fn name_part(token: Seq<char>) -> Seq<char> {
    match text::cut(token, '=') {
        Some((name, _)) => name,
        None => token,
    }
}

/// The flag name of a token: `--format=json` → `--format`, so that a flag with a value
/// is recognized in either spelling.
pub fn flag_name(token: &str) -> (r: &str)
    ensures
        r@ == name_part(token@),
{
    match text::split_once(token, '=') {
        Some((name, _)) => name,
        None => token,
    }
}

/// The global flags that take a value.
pub open spec fn takes_value(name: Seq<char>) -> bool {
    name == "-f"@ || name == "--format"@ || name == "--color"@ || name == "--clove-dir"@
}

/// The global flags that take none.
pub open spec fn is_switch(name: Seq<char>) -> bool {
    name == "--no-index"@ || name == "--deep"@ || name == "--quiet"@
}

/// Is this the name of a global flag that takes a value?
pub fn is_global_value_flag(name: &str) -> (r: bool)
    ensures
        r == takes_value(name@),
{
    text::same(name, "-f") || text::same(name, "--format") || text::same(name, "--color")
        || text::same(name, "--clove-dir")
}

/// Is this the name of a global flag that takes no value?
pub fn is_global_bool_flag(name: &str) -> (r: bool)
    ensures
        r == is_switch(name@),
{
    text::same(name, "--no-index") || text::same(name, "--deep") || text::same(name, "--quiet")
}

/// The arguments from the first one on that is no global flag. A flag's value goes with
/// it, in the same token or in the next.
pub open spec fn behind_globals(args: Seq<Seq<char>>) -> Seq<Seq<char>>
    decreases args.len(),
{
    if args.len() == 0 {
        args
    } else if takes_value(name_part(args[0])) {
        if args[0].contains('=') {
            behind_globals(args.skip(1))
        } else if args.len() == 1 {
            Seq::empty()
        } else {
            behind_globals(args.skip(2))
        }
    } else if is_switch(name_part(args[0])) {
        behind_globals(args.skip(1))
    } else {
        args
    }
}

/// Is this a multiplexer?
pub open spec fn is_multiplexer(word: Seq<char>) -> bool {
    word == "import"@ || word == "export"@ || word == "sync"@
}

/// The multiplexer whose help is wanted: the first argument behind the global flags,
/// if the next one asks for help.
pub open spec fn help_wanted(argv: Seq<Seq<char>>) -> Option<Seq<char>> {
    if argv.len() == 0 {
        None
    } else {
        let rest = behind_globals(argv.skip(1));
        if rest.len() >= 2 && is_multiplexer(rest[0]) && (rest[1] == "-h"@ || rest[1]
            == "--help"@) {
            Some(rest[0])
        } else {
            None
        }
    }
}

/// Recognizes a `<mux> --help` invocation. `argv` is the whole command line, with the
/// program's name in front. `import --help` is recognized; `import tk --help` is not,
/// for there the flag belongs to the provider.
pub fn detect(argv: &Vec<String>) -> (r: Option<&'static str>)
    ensures
        text::opt_view(r) == help_wanted(argv.deep_view()),
{
    let ghost all = argv.deep_view();
    if argv.len() == 0 {
        return None;
    }
    let mut i: usize = 1;
    while i < argv.len()
        invariant_except_break
            1 <= i <= argv.len(),
            all == argv.deep_view(),
            behind_globals(all.skip(1)) == behind_globals(all.skip(i as int)),
        ensures
            1 <= i <= argv.len(),
            all == argv.deep_view(),
            behind_globals(all.skip(1)) == all.skip(i as int),
        decreases argv.len() - i,
    {
        let token = argv[i].as_str();
        let ghost here = all.skip(i as int);
        assert(here[0] == token@);
        assert(here.skip(1) =~= all.skip(i + 1));
        let name = flag_name(token);
        if is_global_value_flag(name) {
            if text::has_char(token, '=') {
                i += 1;
            } else if argv.len() - i >= 2 {
                assert(here.skip(2) =~= all.skip(i + 2));
                i += 2;
            } else {
                assert(all.skip(i + 1) =~= Seq::<Seq<char>>::empty());
                i += 1;
                break;
            }
        } else if is_global_bool_flag(name) {
            i += 1;
        } else {
            break;
        }
    }
    let ghost rest = all.skip(i as int);
    if argv.len() - i < 2 {
        return None;
    }
    let word = argv[i].as_str();
    let next = argv[i + 1].as_str();
    assert(rest[0] == word@);
    assert(rest[1] == next@);
    if !text::same(next, "-h") && !text::same(next, "--help") {
        return None;
    }
    if text::same(word, "import") {
        Some("import")
    } else if text::same(word, "export") {
        Some("export")
    } else if text::same(word, "sync") {
        Some("sync")
    } else {
        None
    }
}

/// Help is only ever given for a multiplexer.
pub proof fn law_only_multiplexers_are_intercepted(argv: Seq<Seq<char>>)
    ensures
        help_wanted(argv) matches Some(mux) ==> is_multiplexer(mux) && argv.contains(mux),
{
    if let Some(mux) = help_wanted(argv) {
        lemma_behind_globals_is_a_tail(argv.skip(1));
        let rest = behind_globals(argv.skip(1));
        let n = argv.skip(1).len() - rest.len();
        assert(rest[0] == argv.skip(1)[n]);
        assert(argv[n + 1] == mux);
    }
}

proof fn lemma_behind_globals_is_a_tail(args: Seq<Seq<char>>)
    ensures
        behind_globals(args).len() <= args.len(),
        behind_globals(args) == args.skip(args.len() - behind_globals(args).len()),
    decreases args.len(),
{
    if args.len() > 0 {
        lemma_behind_globals_is_a_tail(args.skip(1));
        if args.len() > 1 {
            lemma_behind_globals_is_a_tail(args.skip(2));
        }
    }
    let r = behind_globals(args);
    assert(r =~= args.skip(args.len() - r.len()));
}

// ---- The section on providers -------------------------------------------------

/// The providers of a multiplexer among the plugins: those named `<mux>-<provider>`.
pub open spec fn provided(all: Seq<InfoView>, mux: Seq<char>) -> Seq<InfoView>
    decreases all.len(),
{
    if all.len() == 0 {
        Seq::empty()
    } else {
        let rest = provided(all.drop_last(), mux);
        match crate::plugin::provider_of(all.last().name, mux) {
            Some(_) => rest.push(all.last()),
            None => rest,
        }
    }
}

fn provider_in<'a>(name: &'a str, mux: &str) -> (r: Option<&'a str>)
    ensures
        text::opt_view(r) == crate::plugin::provider_of(name@, mux@),
{
    let prefix = text::cat2(mux, "-");
    match text::strip_prefix(name, prefix.as_str()) {
        Some(rest) => if rest.is_empty() {
            None
        } else {
            Some(rest)
        },
        None => None,
    }
}

/// The providers of a multiplexer among the plugins. Only these are asked what they
/// are.
pub fn providers(all: &Vec<PluginInfo>, mux: &str) -> (r: Vec<PluginInfo>)
    ensures
        r.deep_view() == provided(all.deep_view(), mux@),
{
    let ghost given = all.deep_view();
    let mut out: Vec<PluginInfo> = Vec::new();
    let mut i: usize = 0;
    assert(out.deep_view() =~= provided(given.take(0), mux@));
    while i < all.len()
        invariant
            i <= all.len(),
            given == all.deep_view(),
            out.deep_view() == provided(given.take(i as int), mux@),
        decreases all.len() - i,
    {
        let ghost prev = out.deep_view();
        assert(given.take(i + 1).drop_last() =~= given.take(i as int));
        assert(given[i as int] == all@[i as int].deep_view());
        if provider_in(all[i].name.as_str(), mux).is_some() {
            out.push(all[i].clone());
            assert(out.deep_view() =~= prev.push(given[i as int]));
        }
        i += 1;
    }
    assert(given.take(i as int) =~= given);
    out
}

/// The line of a provider.
pub open spec fn provider_line(
    mux: Seq<char>,
    name: Seq<char>,
    answer: Option<ProbeView>,
) -> Seq<char> {
    match crate::plugin::provider_of(name, mux) {
        Some(provider) => match answer {
            Some(info) => "  "@ + provider + "  clove-"@ + name + " "@ + info.version + " — "@
                + info.about + "   (clove "@ + mux + " "@ + provider + ")\n"@,
            None => "  "@ + provider + "  clove-"@ + name + " (no metadata)   (clove "@ + mux
                + " "@ + provider + ")\n"@,
        },
        None => Seq::empty(),
    }
}

/// The lines of the providers, each with its answer. A provider beyond the answers did
/// not answer.
pub open spec fn provider_lines(
    mux: Seq<char>,
    installed: Seq<InfoView>,
    answers: Seq<Option<ProbeView>>,
) -> Seq<char>
    decreases installed.len(),
{
    if installed.len() == 0 {
        Seq::empty()
    } else {
        let n = installed.len() - 1;
        provider_lines(mux, installed.drop_last(), answers) + provider_line(
            mux,
            installed.last().name,
            if n < answers.len() {
                answers[n]
            } else {
                None
            },
        )
    }
}

/// What is said of the built-in providers.
pub open spec fn builtin_section(mux: Seq<char>) -> Seq<char> {
    if mux == "import"@ || mux == "export"@ {
        "Built-in providers:\n  json   clove's native restore/dump — a single JSON envelope of all items\n  jsonl  one item per line (NDJSON)\n"@
    } else if mux == "sync"@ {
        "Built-in providers: none (every provider is a plugin)\n"@
    } else {
        Seq::empty()
    }
}

/// The section on providers: the built-in ones, the installed ones, and where the
/// global flags go.
pub open spec fn provider_section(
    mux: Seq<char>,
    installed: Seq<InfoView>,
    answers: Seq<Option<ProbeView>>,
) -> Seq<char> {
    builtin_section(mux) + (if installed.len() > 0 {
        "\nInstalled providers:\n"@ + provider_lines(mux, installed, answers)
    } else {
        Seq::empty()
    })
        + "\nNote: clove global flags (--format, --color, --quiet, …) must come BEFORE the provider — everything after it is the provider's own arguments."@
}

fn line_of(mux: &str, name: &str, answer: &Option<ProbedInfo>) -> (r: String)
    ensures
        r@ == provider_line(mux@, name@, answer.deep_view()),
{
    match provider_in(name, mux) {
        Some(provider) => match answer {
            Some(info) => {
                let head = text::cat6(
                    "  ",
                    provider,
                    "  clove-",
                    name,
                    " ",
                    info.version.as_str(),
                );
                text::cat8(
                    head.as_str(),
                    " — ",
                    info.about.as_str(),
                    "   (clove ",
                    mux,
                    " ",
                    provider,
                    ")\n",
                )
            },
            None => text::cat8(
                "  ",
                provider,
                "  clove-",
                name,
                " (no metadata)   (clove ",
                mux,
                " ",
                text::cat2(provider, ")\n").as_str(),
            ),
        },
        None => String::new(),
    }
}

/// Builds the section on the providers of `mux` for its help: the built-in ones, then
/// the installed ones with what each says of itself, then where the global flags go.
pub fn render_provider_section(
    mux: &str,
    installed: &Vec<PluginInfo>,
    answers: &Vec<Option<ProbedInfo>>,
) -> (r: String)
    ensures
        r@ == provider_section(mux@, installed.deep_view(), answers.deep_view()),
{
    let builtin: &str = if text::same(mux, "import") || text::same(mux, "export") {
        "Built-in providers:\n  json   clove's native restore/dump — a single JSON envelope of all items\n  jsonl  one item per line (NDJSON)\n"
    } else if text::same(mux, "sync") {
        "Built-in providers: none (every provider is a plugin)\n"
    } else {
        ""
    };
    proof {
        reveal_strlit("");
        assert(""@ =~= Seq::<char>::empty());
    }
    let ghost all = installed.deep_view();
    let ghost given = answers.deep_view();
    let mut lines: String = String::new();
    if installed.len() > 0 {
        lines.append("\nInstalled providers:\n");
        let ghost head = "\nInstalled providers:\n"@;
        assert(lines@ =~= head + provider_lines(mux@, all.take(0), given));
        let mut i: usize = 0;
        while i < installed.len()
            invariant
                i <= installed.len(),
                all == installed.deep_view(),
                given == answers.deep_view(),
                lines@ == head + provider_lines(mux@, all.take(i as int), given),
            decreases installed.len() - i,
        {
            assert(all.take(i + 1).drop_last() =~= all.take(i as int));
            assert(all[i as int] == installed@[i as int].deep_view());
            let line = if i < answers.len() {
                assert(given[i as int] == answers@[i as int].deep_view());
                line_of(mux, installed[i].name.as_str(), &answers[i])
            } else {
                line_of(mux, installed[i].name.as_str(), &None)
            };
            let ghost before = lines@;
            lines.append(line.as_str());
            assert(before + line@ =~= head + (provider_lines(mux@, all.take(i as int), given)
                + line@));
            i += 1;
        }
        assert(all.take(i as int) =~= all);
    }
    assert(all.len() == installed.len());
    text::cat3(
        builtin,
        lines.as_str(),
        "\nNote: clove global flags (--format, --color, --quiet, …) must come BEFORE the provider — everything after it is the provider's own arguments.",
    )
}

/// Global flags in front of a command change nothing about what help is wanted: a switch, a
/// flag with its value in it, and a flag with its value behind it.
pub proof fn law_globals_in_front_change_nothing(
    clove: Seq<char>,
    flag: Seq<char>,
    value: Seq<char>,
    rest: Seq<Seq<char>>,
)
    ensures
        is_switch(name_part(flag)) && !takes_value(name_part(flag)) ==> help_wanted(
            seq![clove, flag] + rest,
        ) == help_wanted(seq![clove] + rest),
        takes_value(name_part(flag)) && flag.contains('=') ==> help_wanted(
            seq![clove, flag] + rest,
        ) == help_wanted(seq![clove] + rest),
        takes_value(name_part(flag)) && !flag.contains('=') ==> help_wanted(
            seq![clove, flag, value] + rest,
        ) == help_wanted(seq![clove] + rest),
{
    let plain = seq![clove] + rest;
    assert(plain.skip(1) =~= rest);
    let one = seq![clove, flag] + rest;
    let tail = one.skip(1);
    assert(tail =~= seq![flag] + rest);
    assert(tail.skip(1) =~= rest);
    assert(tail[0] == flag);
    let two = seq![clove, flag, value] + rest;
    let behind = two.skip(1);
    assert(behind =~= seq![flag, value] + rest);
    assert(behind.skip(2) =~= rest);
    assert(behind[0] == flag);
}

/// Help is wanted for a multiplexer when it is asked for right behind it, and not otherwise.
pub proof fn law_help_is_wanted_where_it_is_asked_for(
    clove: Seq<char>,
    mux: Seq<char>,
    word: Seq<char>,
    rest: Seq<Seq<char>>,
)
    requires
        mux == "import"@ || mux == "export"@ || mux == "sync"@,
    ensures
        help_wanted(seq![clove, mux, "-h"@] + rest) == Some(mux),
        help_wanted(seq![clove, mux, "--help"@] + rest) == Some(mux),
        word != "-h"@ && word != "--help"@ ==> help_wanted(seq![clove, mux, word] + rest) is None,
        help_wanted(seq![clove, mux]) is None,
{
    reveal_strlit("import");
    reveal_strlit("export");
    reveal_strlit("sync");
    reveal_strlit("-f");
    reveal_strlit("--format");
    reveal_strlit("--color");
    reveal_strlit("--clove-dir");
    reveal_strlit("--no-index");
    reveal_strlit("--deep");
    reveal_strlit("--quiet");
    assert(mux[0] == 'i' || mux[0] == 'e' || mux[0] == 's');
    assert(!mux.contains('=')) by {
        if mux.contains('=') {
            let k = choose|k: int| 0 <= k < mux.len() && mux[k] == '=';
        }
    }
    text::law_a_text_is_cut_at_the_first(mux, '=', Seq::empty());
    assert(name_part(mux) == mux);
    assert("-f"@[0] == '-' && "--format"@[0] == '-' && "--color"@[0] == '-');
    assert("--clove-dir"@[0] == '-' && "--no-index"@[0] == '-' && "--deep"@[0] == '-');
    assert("--quiet"@[0] == '-');
    assert(!takes_value(mux) && !is_switch(mux));
    let a = (seq![clove, mux, "-h"@] + rest).skip(1);
    assert(a[0] == mux && a[1] == "-h"@ && a.len() >= 2);
    let b = (seq![clove, mux, "--help"@] + rest).skip(1);
    assert(b[0] == mux && b[1] == "--help"@ && b.len() >= 2);
    let c = (seq![clove, mux, word] + rest).skip(1);
    assert(c[0] == mux && c[1] == word);
    let d = seq![clove, mux].skip(1);
    assert(d[0] == mux && d.len() == 1);
}

/// The providers of a multiplexer are the plugins that are named after it, in order.
pub proof fn law_every_provider_of_a_command_is_listed(items: Seq<InfoView>, mux: Seq<char>, x: InfoView)
    ensures
        provided(items, mux).contains(x) <==> items.contains(x) && crate::plugin::provider_of(x.name, mux) is Some,
        provided(items.push(x), mux) == (if crate::plugin::provider_of(x.name, mux) is Some {
            provided(items, mux).push(x)
        } else {
            provided(items, mux)
        }),
    decreases items.len(),
{
    assert(items.push(x).drop_last() =~= items);
    if items.len() > 0 {
        let init = items.drop_last();
        law_every_provider_of_a_command_is_listed(init, mux, x);
        let rest = provided(init, mux);
        let all = provided(items, mux);
        if all.contains(x) {
            let k = choose|k: int| 0 <= k < all.len() && all[k] == x;
            if k < rest.len() {
                assert(rest[k] == x);
                let i = choose|i: int| 0 <= i < init.len() && init[i] == x;
                assert(items[i] == x);
            } else {
                assert(items[items.len() - 1] == x);
            }
        }
        if items.contains(x) && crate::plugin::provider_of(x.name, mux) is Some {
            let i = choose|i: int| 0 <= i < items.len() && items[i] == x;
            if i < init.len() {
                assert(init[i] == x);
                let k = choose|k: int| 0 <= k < rest.len() && rest[k] == x;
                assert(all[k] == x);
            } else {
                assert(all[rest.len() as int] == x);
            }
        }
    }
}

/// The line of a provider shows its name, its file and how it is reached, and what it says of
/// itself.
pub proof fn law_a_provider_line_shows_the_provider(
    mux: Seq<char>,
    provider: Seq<char>,
    info: ProbeView,
)
    requires
        provider.len() > 0,
    ensures
        ({
            let name = mux + "-"@ + provider;
            &&& provider_line(mux, name, Some(info)) == "  "@ + provider + "  clove-"@ + name
                + " "@ + info.version + " — "@ + info.about + "   (clove "@ + mux + " "@ + provider
                + ")\n"@
            &&& provider_line(mux, name, None) == "  "@ + provider + "  clove-"@ + name
                + " (no metadata)   (clove "@ + mux + " "@ + provider + ")\n"@
        }),
{
    let front = mux + "-"@;
    let name = front + provider;
    assert(name.take(front.len() as int) =~= front);
    assert(name.skip(front.len() as int) =~= provider);
}

/// Each provider has its line, in order, with the answer that it gave.
pub proof fn law_each_provider_has_its_line(
    mux: Seq<char>,
    installed: Seq<InfoView>,
    p: InfoView,
    answers: Seq<Option<ProbeView>>,
)
    ensures
        provider_lines(mux, Seq::empty(), answers).len() == 0,
        installed.len() < answers.len() ==> provider_lines(mux, installed.push(p), answers)
            == provider_lines(mux, installed, answers) + provider_line(
            mux,
            p.name,
            answers[installed.len() as int],
        ),
        installed.len() >= answers.len() ==> provider_lines(mux, installed.push(p), answers)
            == provider_lines(mux, installed, answers) + provider_line(mux, p.name, None),
        text::begins(provider_section(mux, installed, answers), builtin_section(mux)),
        installed.len() > 0 ==> text::occurs(
            provider_section(mux, installed, answers),
            provider_lines(mux, installed, answers),
        ),
        builtin_section("import"@) == builtin_section("export"@),
{
    assert(installed.push(p).drop_last() =~= installed);
    let s = provider_section(mux, installed, answers);
    let b = builtin_section(mux);
    assert(s.take(b.len() as int) =~= b);
    if installed.len() > 0 {
        let head = "\nInstalled providers:\n"@;
        let lines = provider_lines(mux, installed, answers);
        text::lemma_occurs_between(head, lines, Seq::empty());
        assert(head + lines + Seq::<char>::empty() =~= head + lines);
        text::lemma_occurs_in_back(b, head + lines, lines);
        let note =
            "\nNote: clove global flags (--format, --color, --quiet, …) must come BEFORE the provider — everything after it is the provider's own arguments."@;
        text::lemma_occurs_in_front(b + (head + lines), note, lines);
    }
}

} // verus!
