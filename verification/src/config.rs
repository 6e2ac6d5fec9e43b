//! The configuration of a repository, `config.toml`: the texts in front of its first table.

use vstd::prelude::*;

use crate::cli::{is_id_prefix, parse_id_prefix};
use crate::cmd::init::config_text;
use crate::error::{invalid, invalid_field, CloveError, ErrorView};
use crate::lines::{file_text, law_written_lines_are_read_back};
use crate::text;

verus! {

// ---- A quoted text ------------------------------------------------------------

/// The character that a backslash and a letter stand for.
pub open spec fn escaped(c: char) -> Option<char> {
    match c {
        'b' => Some('\u{8}'),
        't' => Some('\t'),
        'n' => Some('\n'),
        'f' => Some('\u{c}'),
        'r' => Some('\r'),
        '"' => Some('"'),
        '\\' => Some('\\'),
        _ => None,
    }
}

fn escape_of(c: char) -> (r: Option<char>)
    ensures
        r == escaped(c),
{
    match c {
        'b' => Some('\u{8}'),
        't' => Some('\t'),
        'n' => Some('\n'),
        'f' => Some('\u{c}'),
        'r' => Some('\r'),
        '"' => Some('"'),
        '\\' => Some('\\'),
        _ => None,
    }
}

/// What a hexadecimal digit stands for.
pub open spec fn hex_digit(c: char) -> nat
    recommends
        text::is_hex(c),
{
    if text::is_digit(c) {
        (c as nat - '0' as nat) as nat
    } else if 'a' <= c {
        (c as nat - 'a' as nat + 10) as nat
    } else {
        (c as nat - 'A' as nat + 10) as nat
    }
}

/// The number that hexadecimal digits write; none if one of them is none.
pub open spec fn hex_number(s: Seq<char>) -> Option<nat>
    decreases s.len(),
{
    if s.len() == 0 {
        Some(0)
    } else {
        match hex_number(s.drop_last()) {
            Some(n) => if text::is_hex(s.last()) {
                Some(16 * n + hex_digit(s.last()))
            } else {
                None
            },
            None => None,
        }
    }
}

/// The character with a number.
pub open spec fn char_numbered(n: nat) -> Option<char> {
    if n <= 0xD7FF || 0xE000 <= n <= 0x10FFFF {
        Some(n as char)
    } else {
        None
    }
}

/// `char::from_u32` of std: the character with this number, and none for a surrogate or a
/// number above the last character.
#[verifier::external_body]
fn char_of(n: u32) -> (r: Option<char>)
    ensures
        r == char_numbered(n as nat),
{
    char::from_u32(n)
}

/// The escape that a text begins with, and how many characters it takes.
pub open spec fn escape(s: Seq<char>) -> Option<(char, int)> {
    if s.len() < 2 {
        None
    } else if s[1] == 'u' || s[1] == 'U' {
        let end: int = if s[1] == 'u' {
            6
        } else {
            10
        };
        if s.len() < end {
            None
        } else {
            match hex_number(s.subrange(2, end)) {
                Some(n) => match char_numbered(n) {
                    Some(c) => Some((c, end)),
                    None => None,
                },
                None => None,
            }
        }
    } else {
        match escaped(s[1]) {
            Some(c) => Some((c, 2int)),
            None => None,
        }
    }
}

/// A basic string behind its opening quote: what it says, and what follows its closing quote.
pub open spec fn basic(s: Seq<char>) -> Option<(Seq<char>, Seq<char>)>
    decreases s.len(),
{
    if s.len() == 0 {
        None
    } else if s[0] == '"' {
        Some((Seq::empty(), s.skip(1)))
    } else if s[0] == '\\' {
        match escape(s) {
            Some((c, n)) => behind(seq![c], basic(s.skip(n))),
            None => None,
        }
    } else {
        behind(seq![s[0]], basic(s.skip(1)))
    }
}

/// What a text says whose beginning says `front`.
pub open spec fn behind(front: Seq<char>, rest: Option<(Seq<char>, Seq<char>)>) -> Option<
    (Seq<char>, Seq<char>),
> {
    match rest {
        Some((word, after)) => Some((front + word, after)),
        None => None,
    }
}

/// What a value says that is a string on one line, basic or literal, with nothing behind it
/// but a comment.
pub open spec fn quoted(value: Seq<char>) -> Option<Seq<char>> {
    let read = if value.len() == 0 {
        None
    } else if value[0] == '"' {
        basic(value.skip(1))
    } else if value[0] == '\'' {
        text::cut(value.skip(1), '\'')
    } else {
        None
    };
    match read {
        Some((word, after)) => {
            let rest = text::trimmed(after);
            if rest.len() == 0 || rest[0] == '#' {
                Some(word)
            } else {
                None
            }
        },
        None => None,
    }
}

fn hex_of(x: &Vec<char>, start: usize, end: usize) -> (r: Option<u32>)
    requires
        start <= end <= x.len(),
        end - start <= 8,
    ensures
        match r {
            Some(n) => hex_number(x@.subrange(start as int, end as int)) == Some(n as nat),
            None => hex_number(x@.subrange(start as int, end as int)) is None,
        },
{
    let ghost digits = x@.subrange(start as int, end as int);
    let mut n: u32 = 0;
    let mut k: usize = 0;
    let ghost mut bound: nat = 1;
    proof {
        assert(digits.take(0) =~= Seq::empty());
    }
    while k < end - start
        invariant
            start <= end <= x.len(),
            end - start <= 8,
            k <= end - start,
            digits == x@.subrange(start as int, end as int),
            hex_number(digits.take(k as int)) == Some(n as nat),
            n < bound,
            bound == (if k == 0 { 0x1nat } else if k == 1 { 0x10 } else if k == 2 { 0x100 }
                else if k == 3 { 0x1000 } else if k == 4 { 0x1_0000 } else if k == 5 { 0x10_0000 }
                else if k == 6 { 0x100_0000 } else if k == 7 { 0x1000_0000 }
                else { 0x1_0000_0000 }),
        decreases end - start - k,
    {
        let c = x[start + k];
        let ghost more = digits.take(k + 1);
        assert(more.drop_last() =~= digits.take(k as int));
        assert(more.last() == c);
        if !text::hex(c) {
            proof {
                lemma_no_number(digits, k as int);
            }
            return None;
        }
        let d: u32 = if text::digit(c) {
            c as u32 - '0' as u32
        } else if 'a' <= c {
            c as u32 - 'a' as u32 + 10
        } else {
            c as u32 - 'A' as u32 + 10
        };
        assert(d == hex_digit(c) && d < 16);
        n = 16 * n + d;
        k += 1;
        proof {
            bound = 16 * bound;
        }
    }
    assert(digits.take(k as int) =~= digits);
    Some(n)
}

proof fn lemma_no_number(digits: Seq<char>, k: int)
    requires
        0 <= k < digits.len(),
        !text::is_hex(digits[k]),
    ensures
        hex_number(digits) is None,
    decreases digits.len(),
{
    if k < digits.len() - 1 {
        lemma_no_number(digits.drop_last(), k);
    }
}

proof fn lemma_behind(a: Seq<char>, b: Seq<char>, rest: Option<(Seq<char>, Seq<char>)>)
    ensures
        behind(a, behind(b, rest)) == behind(a + b, rest),
{
    if let Some((word, after)) = rest {
        assert(a + (b + word) =~= (a + b) + word);
    }
}

/// The escape at a place, and how many characters it takes.
fn escape_at(x: &Vec<char>, i: usize) -> (r: Option<(char, usize)>)
    requires
        i < x.len(),
    ensures
        match r {
            Some((c, n)) => escape(x@.skip(i as int)) == Some((c, n as int)) && i + n <= x.len(),
            None => escape(x@.skip(i as int)) is None,
        },
{
    let ghost s = x@.skip(i as int);
    if x.len() - i < 2 {
        return None;
    }
    let kind = x[i + 1];
    assert(s[1] == kind);
    if kind == 'u' || kind == 'U' {
        let end: usize = if kind == 'u' {
            6
        } else {
            10
        };
        if x.len() - i < end {
            return None;
        }
        assert(s.subrange(2, end as int) =~= x@.subrange(i + 2, i + end));
        match hex_of(x, i + 2, i + end) {
            Some(n) => match char_of(n) {
                Some(c) => Some((c, end)),
                None => None,
            },
            None => None,
        }
    } else {
        match escape_of(kind) {
            Some(c) => Some((c, 2)),
            None => None,
        }
    }
}

/// Reads a basic string behind its opening quote.
fn basic_text(s: &str) -> (r: Option<(String, String)>)
    ensures
        match r {
            Some((word, after)) => basic(s@) == Some((word@, after@)),
            None => basic(s@) is None,
        },
{
    let x = text::chars_of(s);
    let mut out = String::new();
    let mut i: usize = 0;
    proof {
        assert(s@.skip(0) =~= s@);
        if let Some((word, _)) = basic(s@) {
            assert(out@ + word =~= word);
        }
    }
    while i < x.len()
        invariant
            x@ == s@,
            i <= x.len(),
            basic(s@) == behind(out@, basic(s@.skip(i as int))),
        decreases x.len() - i,
    {
        let c = x[i];
        let ghost rest = s@.skip(i as int);
        assert(rest[0] == c);
        if c == '"' {
            let after = s.substring_char(i + 1, x.len());
            assert(after@ =~= rest.skip(1));
            assert(out@ + Seq::<char>::empty() =~= out@);
            return Some((out, after.to_owned()));
        }
        if c == '\\' {
            match escape_at(&x, i) {
                Some((e, n)) => {
                    proof {
                        assert(rest.skip(n as int) =~= s@.skip(i + n));
                        lemma_behind(out@, seq![e], basic(rest.skip(n as int)));
                        assert(out@ + seq![e] =~= out@.push(e));
                    }
                    out.push(e);
                    i += n;
                },
                None => return None,
            }
        } else {
            proof {
                assert(rest.skip(1) =~= s@.skip(i + 1));
                lemma_behind(out@, seq![c], basic(rest.skip(1)));
                assert(out@ + seq![c] =~= out@.push(c));
            }
            out.push(c);
            i += 1;
        }
    }
    None
}

/// Reads a quoted value.
fn quoted_text(value: &str) -> (r: Option<String>)
    ensures
        r.deep_view() == quoted(value@),
{
    let len = value.unicode_len();
    if len == 0 {
        return None;
    }
    let inner = value.substring_char(1, len);
    assert(inner@ =~= value@.skip(1));
    let read: Option<(String, String)> = match value.get_char(0) {
        '"' => basic_text(inner),
        '\'' => match text::split_once(inner, '\'') {
            Some((word, after)) => Some((word.to_owned(), after.to_owned())),
            None => None,
        },
        _ => None,
    };
    match read {
        Some((word, after)) => {
            let rest = text::trim(after.as_str());
            if rest.unicode_len() == 0 || rest.get_char(0) == '#' {
                Some(word)
            } else {
                None
            }
        },
        None => None,
    }
}

// ---- The keys -----------------------------------------------------------------

/// The key of a configuration line `key = value`, and the value.
pub open spec fn config_entry(line: Seq<char>) -> Option<(Seq<char>, Seq<char>)> {
    match text::cut(line, '=') {
        Some((key, value)) => Some((text::trimmed(key), text::trimmed(value))),
        None => None,
    }
}

/// What is said of a key whose value is no string on one line.
pub open spec fn no_string(key: Seq<char>) -> ErrorView {
    invalid_field("config.toml"@, key + " must be a quoted string on one line"@)
}

/// The text that the lines of a configuration give a key, in front of its first table; a
/// value that is no string on one line is refused.
pub open spec fn configured(lines: Seq<Seq<char>>, key: Seq<char>) -> Result<
    Option<Seq<char>>,
    ErrorView,
>
    decreases lines.len(),
{
    if lines.len() == 0 || text::begins(text::trimmed(lines[0]), "["@) {
        Ok(None)
    } else {
        match config_entry(lines[0]) {
            Some((name, value)) => if name == key {
                match quoted(value) {
                    Some(word) => Ok(Some(word)),
                    None => Err(no_string(key)),
                }
            } else {
                configured(lines.drop_first(), key)
            },
            None => configured(lines.drop_first(), key),
        }
    }
}

/// Reads a text out of the configuration.
pub fn config_value(config: &str, key: &str) -> (r: Result<Option<String>, CloveError>)
    ensures
        crate::error::outcome(r) == configured(text::text_lines(config@), key@),
{
    let lines = text::lines(config);
    let ghost all = lines.deep_view();
    let mut i: usize = 0;
    assert(all.skip(0) =~= all);
    while i < lines.len()
        invariant
            i <= lines.len(),
            all == lines.deep_view(),
            all == text::text_lines(config@),
            configured(all, key@) == configured(all.skip(i as int), key@),
        decreases lines.len() - i,
    {
        let line = lines[i].as_str();
        assert(all.skip(i as int)[0] == line@);
        assert(all.skip(i as int).drop_first() =~= all.skip(i + 1));
        if text::starts_with(text::trim(line), "[") {
            return Ok(None);
        }
        if let Some((name, value)) = text::split_once(line, '=') {
            if text::same(text::trim(name), key) {
                return match quoted_text(text::trim(value)) {
                    Some(word) => Ok(Some(word)),
                    None => Err(
                        invalid(
                            "config.toml",
                            text::cat2(key, " must be a quoted string on one line"),
                        ),
                    ),
                };
            }
        }
        i += 1;
    }
    Ok(None)
}

/// The prefix of the item ids that the lines of a configuration give; one that
/// `init --prefix` would refuse is refused here too.
pub open spec fn configured_prefix(lines: Seq<Seq<char>>) -> Result<Option<Seq<char>>, ErrorView> {
    match configured(lines, "id_prefix"@) {
        Ok(Some(word)) => if is_id_prefix(word) {
            Ok(Some(word))
        } else {
            Err(
                invalid_field(
                    "config.toml"@,
                    "id_prefix `"@ + word + "` must match ^[a-z][a-z0-9]{0,7}$"@,
                ),
            )
        },
        other => other,
    }
}

/// Reads the prefix of the item ids.
pub fn id_prefix(config: &str) -> (r: Result<Option<String>, CloveError>)
    ensures
        crate::error::outcome(r) == configured_prefix(text::text_lines(config@)),
{
    match config_value(config, "id_prefix") {
        Ok(Some(word)) => match parse_id_prefix(word.as_str()) {
            Ok(prefix) => Ok(Some(prefix)),
            Err(e) => Err(invalid("config.toml", e)),
        },
        Ok(None) => Ok(None),
        Err(e) => Err(e),
    }
}

proof fn lemma_plain_basic(word: Seq<char>)
    requires
        !word.contains('"'),
        !word.contains('\\'),
    ensures
        basic(word.push('"')) == Some((word, Seq::<char>::empty())),
    decreases word.len(),
{
    let s = word.push('"');
    if word.len() == 0 {
        assert(s.skip(1) =~= Seq::empty());
        assert(word =~= Seq::empty());
    } else {
        let rest = word.drop_first();
        assert(word.contains(word[0]));
        assert forall|c: char| rest.contains(c) implies word.contains(c) by {
            let k = choose|k: int| 0 <= k < rest.len() && rest[k] == c;
            assert(word[k + 1] == c);
        }
        lemma_plain_basic(rest);
        assert(s.skip(1) =~= rest.push('"'));
        assert(seq![word[0]] + rest =~= word);
    }
}

/// The configuration that `init` writes names the prefix it was given: what `init --prefix`
/// accepts is read again as it stands.
pub proof fn law_a_new_configuration_names_its_prefix(prefix: Seq<char>)
    requires
        is_id_prefix(prefix),
    ensures
        configured_prefix(text::text_lines(config_text(prefix))) == Ok::<
            Option<Seq<char>>,
            ErrorView,
        >(Some(prefix)),
{
    let head = "# clove configuration. See `clove agent-doc` for the full reference."@;
    let schema = "config_schema = 1"@;
    let key = "id_prefix"@;
    let line = "id_prefix = \""@ + prefix + seq!['"'];
    let tail = "\"\ndefault_type = \"feature\"\ndefault_format = \"human\"\n\n[index]\nauto_refresh = true\n\n[daemon]\ngit_sync = false\nwatch_debounce_ms = 200\n# Idle minutes before the daemon self-terminates (0 = never). Each clove\n# command resets this, so it only fires after a long gap of no activity.\nidle_shutdown_min = 240\n"@;
    reveal_strlit("# clove configuration. See `clove agent-doc` for the full reference.");
    reveal_strlit("config_schema = 1");
    reveal_strlit("id_prefix");
    reveal_strlit("id_prefix = \"");
    reveal_strlit("[");
    reveal_strlit(
        "# clove configuration. See `clove agent-doc` for the full reference.\nconfig_schema = 1\nid_prefix = \"",
    );
    reveal_strlit(
        "\"\ndefault_type = \"feature\"\ndefault_format = \"human\"\n\n[index]\nauto_refresh = true\n\n[daemon]\ngit_sync = false\nwatch_debounce_ms = 200\n# Idle minutes before the daemon self-terminates (0 = never). Each clove\n# command resets this, so it only fires after a long gap of no activity.\nidle_shutdown_min = 240\n",
    );
    let rest = tail.skip(2);
    let first = seq![head, schema, line];
    let n = line.len() as int;
    assert(forall|i: int| 13 <= i < n - 1 ==> line[i] == prefix[i - 13]);
    assert(!head.contains('\n') && !head.contains('=') && head.len() == 68);
    assert(!schema.contains('\n') && schema.len() == 17);
    assert(!line.contains('\n')) by {
        assert forall|i: int| 0 <= i < n implies line[i] != '\n' by {
            if 13 <= i < n - 1 {
                assert(line[i] == prefix[i - 13]);
            }
        }
    }
    law_written_lines_are_read_back(first);
    let one = seq![head];
    let two = seq![head, schema];
    assert(first.drop_last() =~= two);
    assert(two.drop_last() =~= one);
    assert(one.drop_last() =~= Seq::<Seq<char>>::empty());
    reveal_with_fuel(file_text, 4);
    let start = file_text(first);
    assert(start + rest =~= config_text(prefix));
    text::law_lines_behind_lines(start, rest);
    let all = first + text::text_lines(rest);
    assert(text::text_lines(config_text(prefix)) == all);
    // The comment and the schema are passed over.
    text::law_trimming_takes_white_space(head, 0, 68);
    assert(head.subrange(0, 68) =~= head);
    assert(head.take(1)[0] == '#');
    text::lemma_first_index_means(head, '=');
    assert(config_entry(head) is None);
    text::law_trimming_takes_white_space(schema, 0, 17);
    assert(schema.subrange(0, 17) =~= schema);
    assert(schema.take(1)[0] == 'c');
    text::lemma_first_index_means(schema, '=');
    assert(schema[14] == '=');
    let name = schema.take(14);
    text::law_trimming_takes_white_space(name, 0, 13);
    assert(name.subrange(0, 13).len() != key.len());
    // The third line names the prefix.
    text::law_trimming_takes_white_space(line, 0, n);
    assert(line.take(1)[0] == 'i');
    text::lemma_first_index_means(line, '=');
    assert(line[10] == '=');
    let left = line.take(10);
    text::law_trimming_takes_white_space(left, 0, 9);
    assert(left.subrange(0, 9) =~= key);
    let right = line.skip(11);
    text::law_trimming_takes_white_space(right, 1, n - 11);
    let value = right.subrange(1, n - 11);
    assert(config_entry(line) == Some((key, value)));
    assert(value.skip(1) =~= prefix.push('"'));
    assert(!prefix.contains('"') && !prefix.contains('\\'));
    lemma_plain_basic(prefix);
    assert(quoted(value) == Some(prefix));
    let from1 = all.drop_first();
    let from2 = from1.drop_first();
    assert(all[0] == head && from1[0] == schema && from2[0] == line);
    assert(configured(from2, key) == Ok::<Option<Seq<char>>, ErrorView>(Some(prefix)));
    assert(configured(from1, key) == configured(from2, key));
    assert(configured(all, key) == configured(from1, key));
}

/// A key has the value of its first line, up to the first section; other lines and what stands
/// in a section do not matter.
pub proof fn law_the_first_line_of_a_key_counts(
    line: Seq<char>,
    rest: Seq<Seq<char>>,
    key: Seq<char>,
)
    ensures
        configured(Seq::empty(), key) == Ok::<Option<Seq<char>>, ErrorView>(None),
        text::begins(text::trimmed(line), "["@) ==> configured(seq![line] + rest, key) == Ok::<
            Option<Seq<char>>,
            ErrorView,
        >(None),
        !text::begins(text::trimmed(line), "["@) ==> (config_entry(line) matches Some((name, value))
            ==> (name == key ==> (quoted(value) matches Some(word) ==> configured(
            seq![line] + rest,
            key,
        ) == Ok::<Option<Seq<char>>, ErrorView>(Some(word))))),
        !text::begins(text::trimmed(line), "["@) ==> (config_entry(line) matches Some((name, value))
            ==> (name == key && quoted(value) is None ==> configured(seq![line] + rest, key)
            is Err)),
        !text::begins(text::trimmed(line), "["@) ==> (config_entry(line) matches Some((name, value))
            ==> (name != key ==> configured(seq![line] + rest, key) == configured(rest, key))),
        !text::begins(text::trimmed(line), "["@) && config_entry(line) is None ==> configured(
            seq![line] + rest,
            key,
        ) == configured(rest, key),
{
    let all = seq![line] + rest;
    assert(all[0] == line);
    assert(all.drop_first() =~= rest);
}

/// A text in quotes is what stands between them; in double quotes, where it holds neither a
/// quote nor a backslash.
pub proof fn law_a_quoted_text_is_what_stands_between(word: Seq<char>)
    ensures
        !word.contains('"') && !word.contains('\\') ==> quoted(seq!['"'] + word.push('"')) == Some(
            word,
        ),
        !word.contains('\'') ==> quoted(seq!['\''] + word.push('\'')) == Some(word),
        word.len() > 0 && word[0] != '"' && word[0] != '\'' ==> quoted(word) is None,
{
    let e = Seq::<char>::empty();
    assert(text::trimmed(e) =~= e) by {
        reveal_with_fuel(text::trim_front, 2);
        reveal_with_fuel(text::trim_back, 2);
    }
    let a = seq!['"'] + word.push('"');
    assert(a.skip(1) =~= word.push('"'));
    if !word.contains('"') && !word.contains('\\') {
        lemma_plain_basic(word);
    }
    let b = seq!['\''] + word.push('\'');
    assert(b.skip(1) =~= word.push('\'') + e);
    if !word.contains('\'') {
        text::law_a_text_is_cut_at_the_first(word, '\'', e);
    }
}

/// An escape stands for its character, and a numbered one for the character of that number.
pub proof fn law_an_escape_stands_for_its_character(digits: Seq<char>, c: char, rest: Seq<char>)
    ensures
        escaped('n') == Some('\n') && escaped('t') == Some('\t') && escaped('r') == Some('\r'),
        escaped('"') == Some('"') && escaped('\\') == Some('\\'),
        escaped('b') == Some('\u{8}') && escaped('f') == Some('\u{c}'),
        hex_number(digits) matches Some(n) ==> (text::is_hex(c) ==> hex_number(digits.push(c))
            == Some(16 * n + hex_digit(c))),
        hex_digit('0') == 0 && hex_digit('9') == 9 && hex_digit('a') == 10 && hex_digit('f') == 15
            && hex_digit('A') == 10 && hex_digit('F') == 15,
        digits.len() == 4 ==> (hex_number(digits) matches Some(n) ==> (n == c as nat ==> escape(
            seq!['\\', 'u'] + digits + rest,
        ) == Some((c, 6int)))),
        digits.len() == 8 ==> (hex_number(digits) matches Some(n) ==> (n == c as nat ==> escape(
            seq!['\\', 'U'] + digits + rest,
        ) == Some((c, 10int)))),
{
    assert(digits.push(c).drop_last() =~= digits);
    let s = seq!['\\', 'u'] + digits + rest;
    let t = seq!['\\', 'U'] + digits + rest;
    assert(digits.len() == 4 ==> s.subrange(2, 6) =~= digits);
    assert(digits.len() == 8 ==> t.subrange(2, 10) =~= digits);
    assert(c as nat <= 0xD7FF || (0xE000 <= c as nat && c as nat <= 0x10FFFF));
    assert((c as nat) as char == c);
}

} // verus!
