//! Lines that a file must have.

use vstd::prelude::*;

use crate::text;

verus! {

/// Does a text have `line` as one of its lines, blanks around it apart?
pub open spec fn has_line(contents: Seq<char>, line: Seq<char>) -> bool {
    exists|i: int|
        0 <= i < text::text_lines(contents).len() && text::trimmed(
            #[trigger] text::text_lines(contents)[i],
        ) == line
}

/// Does the text have the line?
pub fn contains_line(contents: &str, line: &str) -> (r: bool)
    ensures
        r == has_line(contents@, line@),
{
    let all = text::lines(contents);
    let ghost v = all.deep_view();
    let mut i: usize = 0;
    while i < all.len()
        invariant
            i <= all.len(),
            v == all.deep_view(),
            v == text::text_lines(contents@),
            forall|j: int| 0 <= j < i ==> text::trimmed(#[trigger] v[j]) != line@,
        decreases all.len() - i,
    {
        assert(v[i as int] == all@[i as int]@);
        if text::same(text::trim(all[i].as_str()), line) {
            assert(text::trimmed(text::text_lines(contents@)[i as int]) == line@);
            return true;
        }
        i += 1;
    }
    false
}

/// Is `line` one that can be written as it is: not empty, without a line break, and
/// without blanks around it?
pub open spec fn is_plain_line(line: Seq<char>) -> bool {
    &&& line.len() > 0
    &&& !line.contains('\n')
    &&& line.last() != '\r'
    &&& text::trimmed(line) == line
}

proof fn lemma_pieces_with_tail(start: Seq<char>, tail: Seq<char>)
    requires
        !tail.contains('\n'),
    ensures
        text::pieces(start + tail, '\n') == text::pieces(start, '\n').update(
            text::pieces(start, '\n').len() - 1,
            text::pieces(start, '\n').last() + tail,
        ),
    decreases tail.len(),
{
    text::lemma_pieces_nonempty(start, '\n');
    let p = text::pieces(start, '\n');
    if tail.len() == 0 {
        assert(start + tail =~= start);
        assert(p.last() + tail =~= p.last());
        assert(p.update(p.len() - 1, p.last()) =~= p);
    } else {
        let init = tail.drop_last();
        assert(tail[tail.len() - 1] == tail.last() && tail.contains(tail.last()));
        assert(!init.contains('\n')) by {
            if init.contains('\n') {
                let k = choose|k: int| 0 <= k < init.len() && init[k] == '\n';
                assert(tail[k] == '\n');
            }
        }
        lemma_pieces_with_tail(start, init);
        assert((start + tail).drop_last() =~= start + init);
        assert((start + tail).last() == tail.last());
        let q = text::pieces(start + init, '\n');
        assert(q.last() == p.last() + init);
        assert((p.last() + init).push(tail.last()) =~= p.last() + tail);
        assert(q.update(q.len() - 1, p.last() + tail) =~= p.update(p.len() - 1, p.last() + tail));
    }
}

/// A text that ends in a line break, or is empty, has the line that is written behind it.
pub proof fn law_a_written_line_is_there(start: Seq<char>, line: Seq<char>)
    requires
        start.len() == 0 || start.last() == '\n',
        is_plain_line(line),
    ensures
        has_line(start + line + seq!['\n'], line),
{
    let p = text::pieces(start, '\n');
    text::lemma_pieces_nonempty(start, '\n');
    assert(p.last() =~= Seq::<char>::empty());
    lemma_pieces_with_tail(start, line);
    assert(p.last() + line =~= line);
    let whole = start + line + seq!['\n'];
    assert(whole.drop_last() =~= start + line);
    let q = text::pieces(start + line, '\n');
    assert(text::pieces(whole, '\n') == q.push(Seq::empty()));
    let n = q.len() - 1;
    assert(text::line_pieces(whole) =~= q);
    assert(q[n] == line);
    assert(text::text_lines(whole)[n] == line);
}

/// The text of some lines, each ended by a line break.
pub open spec fn file_text(lines: Seq<Seq<char>>) -> Seq<char>
    decreases lines.len(),
{
    if lines.len() == 0 {
        Seq::empty()
    } else {
        file_text(lines.drop_last()) + lines.last() + seq!['\n']
    }
}

/// Writes some lines, each ended by a line break.
pub fn write_lines(lines: &Vec<String>) -> (r: String)
    ensures
        r@ == file_text(lines.deep_view()),
{
    let ghost all = lines.deep_view();
    let mut out = String::new();
    let mut i: usize = 0;
    assert(out@ =~= file_text(all.take(0)));
    while i < lines.len()
        invariant
            i <= lines.len(),
            all == lines.deep_view(),
            out@ == file_text(all.take(i as int)),
        decreases lines.len() - i,
    {
        assert(all.take(i + 1).drop_last() =~= all.take(i as int));
        assert(all[i as int] == lines@[i as int]@);
        out.append(lines[i].as_str());
        out.push('\n');
        assert(out@ =~= file_text(all.take(i as int)) + all[i as int] + seq!['\n']);
        i += 1;
    }
    assert(all.take(i as int) =~= all);
    out
}

proof fn lemma_pieces_of_file(lines: Seq<Seq<char>>)
    requires
        forall|i: int| 0 <= i < lines.len() ==> !(#[trigger] lines[i]).contains('\n'),
    ensures
        text::pieces(file_text(lines), '\n') == lines.push(Seq::empty()),
    decreases lines.len(),
{
    if lines.len() == 0 {
        assert(text::pieces(file_text(lines), '\n') =~= lines.push(Seq::empty()));
    } else {
        let init = lines.drop_last();
        let start = file_text(init);
        let tail = lines.last();
        assert forall|i: int| 0 <= i < init.len() implies !(#[trigger] init[i]).contains(
            '\n',
        ) by {
            assert(init[i] == lines[i]);
        }
        lemma_pieces_of_file(init);
        assert(lines[lines.len() - 1] == tail);
        lemma_pieces_with_tail(start, tail);
        let p = text::pieces(start, '\n');
        assert(p.last() + tail =~= tail);
        assert(p.update(p.len() - 1, tail) =~= lines);
        let whole = start + tail + seq!['\n'];
        assert(whole.drop_last() =~= start + tail);
        assert(text::pieces(whole, '\n') == lines.push(Seq::empty()));
    }
}

/// The lines that were written are the lines that are read, where none holds a line break or
/// ends in a carriage return.
pub proof fn law_written_lines_are_read_back(lines: Seq<Seq<char>>)
    requires
        forall|i: int|
            0 <= i < lines.len() ==> !(#[trigger] lines[i]).contains('\n') && (lines[i].len() > 0
                ==> lines[i].last() != '\r'),
    ensures
        text::text_lines(file_text(lines)) == lines,
{
    lemma_pieces_of_file(lines);
    let whole = file_text(lines);
    assert(text::pieces(whole, '\n').last().len() == 0);
    assert(text::line_pieces(whole) =~= lines);
    assert forall|i: int| 0 <= i < lines.len() implies #[trigger] text::text_lines(whole)[i]
        == lines[i] by {
        assert(!lines[i].contains('\n') && (lines[i].len() > 0 ==> lines[i].last() != '\r'));
    }
    assert(text::text_lines(whole) =~= lines);
}

} // verus!
