//! The lines of a text.
use vstd::prelude::*;

verus! {

/// The number of characters before the first line feed, or all of them where
/// there is none.
pub open spec fn first_line_len(text: Seq<char>) -> nat
    decreases text.len(),
{
    if text.len() == 0 || text[0] == '\n' {
        0
    } else {
        1 + first_line_len(text.drop_first())
    }
}

/// A line without the carriage return at its end, if it has one.
pub open spec fn without_carriage_return(line: Seq<char>) -> Seq<char> {
    if line.len() > 0 && line.last() == '\r' {
        line.drop_last()
    } else {
        line
    }
}

/// The lines of a text, without their line ends.
///
/// A line ends with a line feed, or with a carriage return and a line feed. The
/// last line may have no end.
pub open spec fn lines_of(text: Seq<char>) -> Seq<Seq<char>>
    decreases text.len(),
{
    let n = first_line_len(text);
    if text.len() == 0 {
        Seq::empty()
    } else if n >= text.len() {
        seq![text]
    } else {
        seq![without_carriage_return(text.take(n as int))] + lines_of(text.skip(n as int + 1))
    }
}

/// Whether a text stops where a line ends, so that what is appended to it starts
/// a line of its own.
pub open spec fn ends_with_line(text: Seq<char>) -> bool {
    text.len() > 0 ==> text.last() == '\n'
}

/// Whether the text, followed by a line feed, makes up exactly one line.
pub open spec fn fits_one_line(text: Seq<char>) -> bool {
    &&& !text.contains('\n')
    &&& text.len() > 0 ==> text.last() != '\r'
}

/// The characters of each string.
pub open spec fn chars_of(lines: Seq<String>) -> Seq<Seq<char>> {
    Seq::new(lines.len(), |i: int| lines[i]@)
}

/// `String::push` appends the character.
pub assume_specification[ String::push ](s: &mut String, c: char)
    ensures
        final(s)@ == old(s)@.push(c),
;

proof fn lemma_first_line_len(text: Seq<char>, n: nat)
    requires
        n <= text.len(),
        forall|i: int| 0 <= i < n ==> text[i] != '\n',
        n < text.len() ==> text[n as int] == '\n',
    ensures
        first_line_len(text) == n,
    decreases n,
{
    if n > 0 {
        lemma_first_line_len(text.drop_first(), (n - 1) as nat);
    }
}

proof fn lemma_first_line_len_bounds(text: Seq<char>)
    ensures
        first_line_len(text) <= text.len(),
        forall|i: int| 0 <= i < first_line_len(text) ==> text[i] != '\n',
        first_line_len(text) < text.len() ==> text[first_line_len(text) as int] == '\n',
    decreases text.len(),
{
    if text.len() > 0 && text[0] != '\n' {
        lemma_first_line_len_bounds(text.drop_first());
        assert forall|i: int| 0 <= i < first_line_len(text) implies text[i] != '\n' by {
            if i > 0 {
                assert(text[i] == text.drop_first()[i - 1]);
            }
        }
    }
}

/// Appending to a text that ends with a line leaves its lines as they are: the
/// lines of what is appended come after them.
pub proof fn law_lines_of_appended(text: Seq<char>, more: Seq<char>)
    requires
        ends_with_line(text),
    ensures
        lines_of(text + more) == lines_of(text) + lines_of(more),
    decreases text.len(),
{
    if text.len() == 0 {
        assert(text + more =~= more);
        assert(lines_of(text) + lines_of(more) =~= lines_of(more));
    } else {
        let n = first_line_len(text);
        lemma_first_line_len_bounds(text);
        assert(n < text.len());
        lemma_first_line_len(text + more, n);
        let rest = text.skip(n as int + 1);
        assert((text + more).take(n as int) =~= text.take(n as int));
        assert((text + more).skip(n as int + 1) =~= rest + more);
        law_lines_of_appended(rest, more);
        let first = seq![without_carriage_return(text.take(n as int))];
        assert(first + (lines_of(rest) + lines_of(more)) =~= (first + lines_of(rest)) + lines_of(
            more,
        ));
    }
}

/// A text that fits one line, appended with a line feed to a text that ends with
/// a line, becomes its last line, and the text ends with a line again.
pub proof fn law_lines_of_line_appended(text: Seq<char>, line: Seq<char>)
    requires
        ends_with_line(text),
        fits_one_line(line),
    ensures
        lines_of(text + line.push('\n')) == lines_of(text).push(line),
        ends_with_line(text + line.push('\n')),
{
    let more = line.push('\n');
    law_lines_of_appended(text, more);
    assert forall|i: int| 0 <= i < line.len() implies more[i] != '\n' by {
        assert(line.contains(line[i]));
    }
    lemma_first_line_len(more, line.len());
    assert(more.take(line.len() as int) =~= line);
    let rest = more.skip(line.len() as int + 1);
    assert(rest.len() == 0);
    assert(lines_of(rest) =~= Seq::empty());
    assert(lines_of(more) =~= seq![line]);
    assert(lines_of(text) + lines_of(more) =~= lines_of(text).push(line));
}

/// Splits a text into its lines.
pub fn split_lines(text: &str) -> (lines: Vec<String>)
    ensures
        chars_of(lines@) == lines_of(text@),
{
    let mut lines: Vec<String> = Vec::new();
    let mut line: String = String::new();
    let mut carriage_return: bool = false;
    let ghost mut start: int = 0;
    assert(text@.skip(0) =~= text@);
    assert(chars_of(lines@) =~= Seq::empty());
    for c in it: text.chars()
        invariant
            it.seq() == text@,
            0 <= start <= it.index() <= text@.len(),
            chars_of(lines@) + lines_of(text@.skip(start)) == lines_of(text@),
            forall|i: int| start <= i < it.index() ==> text@[i] != '\n',
            line@ == (if carriage_return {
                text@.subrange(start, it.index() - 1)
            } else {
                text@.subrange(start, it.index())
            }),
            carriage_return <==> start < it.index() && text@[it.index() - 1] == '\r',
    {
        let ghost at = it.index();
        if c == '\n' {
            let ghost before = lines@;
            proof {
                let rest = text@.skip(start);
                lemma_first_line_len(rest, (at - start) as nat);
                assert(rest.take(at - start) =~= text@.subrange(start, at));
                assert(rest.skip(at - start + 1) =~= text@.skip(at + 1));
                assert(without_carriage_return(text@.subrange(start, at)) =~= line@);
            }
            lines.push(line);
            proof {
                assert(chars_of(lines@) =~= chars_of(before).push(line@));
                assert(chars_of(lines@) + lines_of(text@.skip(at + 1)) =~= chars_of(before)
                    + lines_of(text@.skip(start)));
                start = at + 1;
            }
            line = String::new();
            carriage_return = false;
        } else {
            if carriage_return {
                line.push('\r');
            }
            if c == '\r' {
                carriage_return = true;
            } else {
                carriage_return = false;
                line.push(c);
            }
            assert(line@ =~= (if carriage_return {
                text@.subrange(start, at)
            } else {
                text@.subrange(start, at + 1)
            }));
        }
    }
    if carriage_return {
        line.push('\r');
    }
    let ghost rest = text@.skip(start);
    assert(line@ =~= rest);
    let ghost before = lines@;
    if !line.as_str().is_empty() {
        proof {
            lemma_first_line_len(rest, rest.len());
        }
        lines.push(line);
        assert(chars_of(lines@) =~= chars_of(before).push(rest));
    }
    assert(chars_of(lines@) =~= lines_of(text@));
    lines
}

/// A line feed ends a line: what stands before the first one, if it does not end
/// with a carriage return, is the first line, and the other lines are those of what
/// follows.
pub proof fn law_line_feed_ends_line(line: Seq<char>, rest: Seq<char>)
    requires
        forall|i: int| 0 <= i < line.len() ==> line[i] != '\n',
        line.len() > 0 ==> line.last() != '\r',
    ensures
        lines_of(line + seq!['\n'] + rest) == seq![line] + lines_of(rest),
{
    let text = line + seq!['\n'] + rest;
    assert forall|i: int| 0 <= i < line.len() implies text[i] != '\n' by {
        assert(text[i] == line[i]);
    }
    assert(text[line.len() as int] == '\n');
    lemma_first_line_len(text, line.len());
    assert(text.take(line.len() as int) =~= line);
    assert(text.skip(line.len() as int + 1) =~= rest);
}

/// A carriage return and a line feed end a line in the same way, and neither of
/// them belongs to it.
pub proof fn law_return_and_feed_end_line(line: Seq<char>, rest: Seq<char>)
    requires
        forall|i: int| 0 <= i < line.len() ==> line[i] != '\n',
    ensures
        lines_of(line + seq!['\r', '\n'] + rest) == seq![line] + lines_of(rest),
{
    let text = line + seq!['\r', '\n'] + rest;
    let n = line.len() + 1;
    assert forall|i: int| 0 <= i < n implies text[i] != '\n' by {
        if i < line.len() {
            assert(text[i] == line[i]);
        }
    }
    assert(text[n as int] == '\n');
    lemma_first_line_len(text, n);
    assert(text.take(n as int) =~= line.push('\r'));
    assert(line.push('\r').drop_last() =~= line);
    assert(text.skip(n as int + 1) =~= rest);
}

/// A text without a line feed is one line as it stands, unless it is empty: an
/// empty text has no line.
pub proof fn law_last_line(line: Seq<char>)
    requires
        forall|i: int| 0 <= i < line.len() ==> line[i] != '\n',
    ensures
        line.len() > 0 ==> lines_of(line) == seq![line],
        line.len() == 0 ==> lines_of(line).len() == 0,
{
    lemma_first_line_len(line, line.len());
}

/// A text has as many lines as it has line feeds, and one more if something stands
/// behind the last of them.
pub proof fn law_number_of_lines(text: Seq<char>)
    ensures
        lines_of(text).len() == text.filter(|c: char| c == '\n').len() + (if text.len() > 0
            && text.last() != '\n' {
            1int
        } else {
            0
        }),
    decreases text.len(),
{
    let feed = |c: char| c == '\n';
    if text.len() == 0 {
        reveal(Seq::filter);
    } else {
        let n = first_line_len(text);
        lemma_first_line_len_bounds(text);
        if n >= text.len() {
            lemma_no_line_feed(text);
        } else {
            let head = text.take(n as int);
            let rest = text.skip(n as int + 1);
            lemma_no_line_feed(head);
            assert(text =~= head + seq!['\n'] + rest);
            Seq::filter_distributes_over_add(head + seq!['\n'], rest, feed);
            Seq::filter_distributes_over_add(head, seq!['\n'], feed);
            assert(seq!['\n'].filter(feed).len() == 1) by {
                reveal(Seq::filter);
                assert(seq!['\n'].drop_last() =~= Seq::<char>::empty());
                assert(Seq::<char>::empty().filter(feed).len() == 0);
            }
            law_number_of_lines(rest);
            if rest.len() > 0 {
                assert(rest.last() == text.last());
            } else {
                assert(text.last() == text[n as int]);
            }
        }
    }
}

proof fn lemma_no_line_feed(text: Seq<char>)
    requires
        forall|i: int| 0 <= i < text.len() ==> text[i] != '\n',
    ensures
        text.filter(|c: char| c == '\n').len() == 0,
    decreases text.len(),
{
    reveal(Seq::filter);
    if text.len() > 0 {
        lemma_no_line_feed(text.drop_last());
    }
}

/// Lines that were written one after the other, each followed by a line feed, are
/// read back as they were written, every one of them and no other.
pub proof fn law_written_lines_read_back(lines: Seq<Seq<char>>)
    requires
        forall|k: int, i: int|
            0 <= k < lines.len() && 0 <= i < lines[k].len() ==> #[trigger] lines[k][i] != '\n',
        forall|k: int|
            0 <= k < lines.len() && (#[trigger] lines[k]).len() > 0 ==> lines[k].last() != '\r',
    ensures
        lines_of(lines.map_values(|line: Seq<char>| line.push('\n')).flatten()) == lines,
    decreases lines.len(),
{
    let ended = |line: Seq<char>| line.push('\n');
    let pieces = lines.map_values(ended);
    if lines.len() > 0 {
        let rest = lines.drop_first();
        assert forall|k: int, i: int|
            0 <= k < rest.len() && 0 <= i < rest[k].len() implies #[trigger] rest[k][i]
            != '\n' by {
            assert(rest[k] == lines[k + 1]);
            assert(lines[k + 1][i] != '\n');
        }
        assert forall|k: int|
            0 <= k < rest.len() && (#[trigger] rest[k]).len() > 0 implies rest[k].last()
            != '\r' by {
            assert(rest[k] == lines[k + 1]);
        }
        law_written_lines_read_back(rest);
        assert(pieces.drop_first() =~= rest.map_values(ended));
        assert forall|i: int| 0 <= i < lines[0].len() implies lines[0][i] != '\n' by {
            assert(lines[0][i] != '\n');
        }
        law_line_feed_ends_line(lines[0], pieces.drop_first().flatten());
        assert(pieces.flatten() =~= lines[0] + seq!['\n'] + pieces.drop_first().flatten());
        assert(seq![lines[0]] + rest =~= lines);
    } else {
        assert(pieces.flatten() =~= Seq::<char>::empty());
        assert(lines_of(pieces.flatten()) =~= lines);
    }
}

/// A text fits one line if and only if, followed by a line feed, it is read back as
/// one line, the text itself.
pub proof fn law_what_fits_one_line(text: Seq<char>)
    ensures
        fits_one_line(text) <==> lines_of(text.push('\n')) == seq![text],
{
    let written = text.push('\n');
    if fits_one_line(text) {
        assert forall|i: int| 0 <= i < text.len() implies text[i] != '\n' by {
            assert(text.contains(text[i]));
        }
        law_line_feed_ends_line(text, Seq::empty());
        assert(text + seq!['\n'] + Seq::<char>::empty() =~= written);
        assert(lines_of(Seq::<char>::empty()) =~= Seq::empty());
        assert(seq![text] + Seq::<Seq<char>>::empty() =~= seq![text]);
    } else {
        let n = first_line_len(written);
        lemma_first_line_len_bounds(written);
        assert(written[text.len() as int] == '\n');
        let first = without_carriage_return(written.take(n as int));
        assert(lines_of(written)[0] == first);
        if text.contains('\n') {
            let i = choose|i: int| 0 <= i < text.len() && text[i] == '\n';
            assert(written[i] == '\n');
            assert(n <= i);
            assert(first.len() < text.len());
        } else {
            assert forall|i: int| 0 <= i < text.len() implies written[i] != '\n' by {
                assert(text.contains(text[i]));
            }
            lemma_first_line_len(written, text.len());
            assert(written.take(n as int) =~= text);
            assert(first.len() < text.len());
        }
        assert(seq![text][0] == text);
    }
}

/// A text ends with a line if and only if the lines of anything that is appended
/// to it come after its own.
pub proof fn law_what_ends_with_line(text: Seq<char>)
    ensures
        ends_with_line(text) <==> forall|more: Seq<char>| #[trigger]
            lines_of(text + more) == lines_of(text) + lines_of(more),
{
    if ends_with_line(text) {
        assert forall|more: Seq<char>| #[trigger] lines_of(text + more) == lines_of(text)
            + lines_of(more) by {
            law_lines_of_appended(text, more);
        }
    } else {
        let feed = |c: char| c == '\n';
        let more = seq!['x'];
        law_number_of_lines(text);
        law_number_of_lines(text + more);
        law_number_of_lines(more);
        Seq::filter_distributes_over_add(text, more, feed);
        lemma_no_line_feed(more);
        assert((text + more).last() == 'x');
        assert(lines_of(text + more).len() != (lines_of(text) + lines_of(more)).len());
    }
}

/// Strings stand for as many lines as there are, each for its own characters.
pub proof fn law_strings_as_lines(lines: Seq<String>, line: String)
    ensures
        chars_of(Seq::empty()).len() == 0,
        chars_of(lines.push(line)) == chars_of(lines).push(line@),
{
    assert(chars_of(lines.push(line)) =~= chars_of(lines).push(line@));
}

} // verus!
