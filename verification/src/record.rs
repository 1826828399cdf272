//! Tasks, their outcomes, and the lines that record them.
use crate::lines::{fits_one_line, law_what_fits_one_line, lines_of};
use vstd::prelude::*;

verus! {

/// A unit of work that a session keeps track of.
///
/// Two tasks are the same task if and only if their names are equal.
///
/// An impl that is to be verified says what its names are in
/// [`Task::spec_name`]. The default there is some function of the task of which
/// nothing is known: an impl that keeps it cannot be shown to meet the contract
/// of [`Task::name`], and what is proved of its tasks rests on names that nobody
/// stated.
pub trait Task: Sized {
    /// The name that the contracts speak of.
    open spec fn spec_name(&self) -> Seq<char> {
        arbitrary::<spec_fn(Self) -> Seq<char>>()(*self)
    }

    /// The name by which the task is told apart from others.
    fn name(&self) -> (name: String)
        ensures
            name@ == self.spec_name(),
    ;
}

/// What a task of type `T` ended with, be it a success or a failure.
///
/// The pair of a task and its outcome is recorded as one line of text.
///
/// An impl that is to be verified says which lines it writes and reads in
/// [`Outcome::content`], [`Outcome::line`] and [`Outcome::entry`]. What it writes,
/// it has to read back. The defaults are some functions of which nothing is
/// known: an impl that keeps them cannot be shown to meet the contracts of
/// [`Outcome::encode`] and [`Outcome::decode`].
pub trait Outcome<T: Task>: Sized {
    /// What the outcome holds.
    open spec fn content(&self) -> Seq<char> {
        arbitrary::<spec_fn(Self) -> Seq<char>>()(*self)
    }

    /// The line that records a task of this name with an outcome of this
    /// content, or `None` where there is no such line.
    open spec fn line(name: Seq<char>, content: Seq<char>) -> Option<Seq<char>> {
        arbitrary::<spec_fn(Option<(T, Self)>, Seq<char>, Seq<char>) -> Option<Seq<char>>>()(
            None,
            name,
            content,
        )
    }

    /// The name and the content that a line records, or `None` where the line
    /// cannot be read.
    open spec fn entry(line: Seq<char>) -> Option<(Seq<char>, Seq<char>)> {
        arbitrary::<
            spec_fn(Option<(T, Self)>, Seq<char>) -> Option<(Seq<char>, Seq<char>)>,
        >()(None, line)
    }

    /// Writes a task and its outcome as a line, without a line end.
    fn encode(task: &T, outcome: &Self) -> (line: Option<String>)
        ensures
            line is Some <==> Self::line(task.spec_name(), outcome.content()) is Some,
            line matches Some(l) ==> {
                &&& Self::line(task.spec_name(), outcome.content()) == Some(l@)
                &&& Self::entry(l@) == Some((task.spec_name(), outcome.content()))
                &&& fits_one_line(l@)
            },
    ;

    /// Reads back a line.
    fn decode(line: &str) -> (entry: Option<(T, Self)>)
        ensures
            entry is Some <==> Self::entry(line@) is Some,
            entry matches Some((task, outcome)) ==> Self::entry(line@) == Some(
                (task.spec_name(), outcome.content()),
            ),
    ;
}

/// Whether `line` can stand in a log and reads back as this name and content.
pub open spec fn records<T: Task, V: Outcome<T>>(
    line: Seq<char>,
    name: Seq<char>,
    content: Seq<char>,
) -> bool {
    &&& V::entry(line) == Some((name, content))
    &&& fits_one_line(line)
}

impl Task for String {
    open spec fn spec_name(&self) -> Seq<char> {
        self@
    }

    fn name(&self) -> (name: String) {
        self.clone()
    }
}

/// An outcome that is a text, recorded as a JSON string.
impl Outcome<String> for String {
    open spec fn content(&self) -> Seq<char> {
        self@
    }

    open spec fn line(name: Seq<char>, content: Seq<char>) -> Option<Seq<char>> {
        Some(json_line(name, Some(content)))
    }

    open spec fn entry(line: Seq<char>) -> Option<(Seq<char>, Seq<char>)> {
        match json_entry(line) {
            Some((name, Some(content))) => Some((name, content)),
            _ => None,
        }
    }

    fn encode(task: &String, outcome: &String) -> (line: Option<String>) {
        proof {
            lemma_json_line(task@, Some(outcome@));
        }
        match write_json(task.as_str(), Some(outcome.as_str())) {
            Ok(line) => Some(line),
            Err(_) => None,
        }
    }

    fn decode(line: &str) -> (entry: Option<(String, String)>) {
        match read_json(line) {
            Ok((task, Some(outcome))) => Some((task, outcome)),
            _ => None,
        }
    }
}

/// An outcome with nothing to tell, recorded as JSON `null`.
impl Outcome<String> for () {
    open spec fn content(&self) -> Seq<char> {
        Seq::empty()
    }

    open spec fn line(name: Seq<char>, content: Seq<char>) -> Option<Seq<char>> {
        Some(json_line(name, None))
    }

    open spec fn entry(line: Seq<char>) -> Option<(Seq<char>, Seq<char>)> {
        match json_entry(line) {
            Some((name, None)) => Some((name, Seq::empty())),
            _ => None,
        }
    }

    fn encode(task: &String, outcome: &()) -> (line: Option<String>) {
        proof {
            lemma_json_line(task@, None);
        }
        match write_json(task.as_str(), None) {
            Ok(line) => Some(line),
            Err(_) => None,
        }
    }

    fn decode(line: &str) -> (entry: Option<(String, ())>) {
        match read_json(line) {
            Ok((task, None)) => Some((task, ())),
            _ => None,
        }
    }
}

/// The error of `serde_json`.
#[verifier::external_type_specification]
#[verifier::external_body]
pub struct ExJsonError(serde_json::Error);

/// The hexadecimal digit of a number below sixteen.
pub open spec fn hex_digit(n: int) -> char {
    if n < 10 {
        ('0' as int + n) as char
    } else {
        ('a' as int + n - 10) as char
    }
}

/// How a character is written inside a JSON string.
pub open spec fn json_char(c: char) -> Seq<char> {
    if c == '"' || c == '\\' {
        seq!['\\', c]
    } else if c == '\u{8}' {
        seq!['\\', 'b']
    } else if c == '\t' {
        seq!['\\', 't']
    } else if c == '\n' {
        seq!['\\', 'n']
    } else if c == '\u{c}' {
        seq!['\\', 'f']
    } else if c == '\r' {
        seq!['\\', 'r']
    } else if (c as int) < 0x20 {
        seq!['\\', 'u', '0', '0', hex_digit(c as int / 16), hex_digit(c as int % 16)]
    } else {
        seq![c]
    }
}

/// How the characters of a text are written inside a JSON string.
pub open spec fn json_chars(text: Seq<char>) -> Seq<char>
    decreases text.len(),
{
    if text.len() == 0 {
        Seq::empty()
    } else {
        json_chars(text.drop_last()) + json_char(text.last())
    }
}

/// A text as a JSON string, or `null` where there is none.
pub open spec fn json_value(text: Option<Seq<char>>) -> Seq<char> {
    match text {
        Some(t) => seq!['"'] + json_chars(t) + seq!['"'],
        None => seq!['n', 'u', 'l', 'l'],
    }
}

/// The JSON array of a text and a text or `null`, without white space.
pub open spec fn json_line(name: Seq<char>, content: Option<Seq<char>>) -> Seq<char> {
    seq!['['] + json_value(Some(name)) + seq![','] + json_value(content) + seq![']']
}

/// A character inside a JSON string is not written as a line feed.
proof fn lemma_json_char(c: char)
    ensures
        !json_char(c).contains('\n'),
{
    let n = c as int;
    assert(n < 0x20 ==> hex_digit(n / 16) != '\n' && hex_digit(n % 16) != '\n');
}

/// A text inside a JSON string has no line feed.
proof fn lemma_json_chars(text: Seq<char>)
    ensures
        !json_chars(text).contains('\n'),
    decreases text.len(),
{
    if text.len() > 0 {
        lemma_json_chars(text.drop_last());
        lemma_json_char(text.last());
        let head = json_chars(text.drop_last());
        let tail = json_char(text.last());
        assert forall|i: int| 0 <= i < (head + tail).len() implies (head + tail)[i] != '\n' by {
            if i < head.len() {
                assert(head.contains(head[i]));
            } else {
                assert(tail.contains(tail[i - head.len()]));
            }
        }
    }
}

/// What [`json_line`] gives can stand in a log.
proof fn lemma_json_line(name: Seq<char>, content: Option<Seq<char>>)
    ensures
        fits_one_line(json_line(name, content)),
{
    lemma_json_chars(name);
    if let Some(c) = content {
        lemma_json_chars(c);
    }
    let line = json_line(name, content);
    assert(line.last() == ']');
    assert forall|i: int| 0 <= i < line.len() implies line[i] != '\n' by {
        let n = json_chars(name);
        assert(forall|k: int| 0 <= k < n.len() ==> n.contains(#[trigger] n[k]));
        if let Some(c) = content {
            let m = json_chars(c);
            assert(forall|k: int| 0 <= k < m.len() ==> m.contains(#[trigger] m[k]));
        }
    }
}

/// The pair of a text and a text or `null` that [`serde_json::from_str`] reads
/// from a line, or `None` where it reports an error.
pub uninterp spec fn json_entry(line: Seq<char>) -> Option<(Seq<char>, Option<Seq<char>>)>;

/// The characters of an optional text.
pub open spec fn optional_chars(text: Option<&str>) -> Option<Seq<char>> {
    match text {
        Some(t) => Some(t@),
        None => None,
    }
}

/// Calls [`serde_json::to_string`] on the pair.
///
/// Claimed of it: on such a pair it does not fail, it writes the array that
/// [`json_line`] says, and [`serde_json::from_str`] reads the same pair back.
#[verifier::external_body]
fn write_json(name: &str, content: Option<&str>) -> (line: Result<String, serde_json::Error>)
    ensures
        line is Ok,
        line->Ok_0@ == json_line(name@, optional_chars(content)),
        json_entry(line->Ok_0@) == Some((name@, optional_chars(content))),
{
    serde_json::to_string(&(name, content))
}

/// Calls [`serde_json::from_str`] for a pair of a text and a text or `null`.
///
/// Claimed of it: whether it succeeds, and with which pair, depends on the line
/// alone.
#[verifier::external_body]
fn read_json(line: &str) -> (entry: Result<(String, Option<String>), serde_json::Error>)
    ensures
        entry is Ok <==> json_entry(line@) is Some,
        entry matches Ok((name, Some(content))) ==> json_entry(line@) == Some(
            (name@, Some(content@)),
        ),
        entry matches Ok((name, None)) ==> json_entry(line@) == Some(
            (name@, None::<Seq<char>>),
        ),
{
    serde_json::from_str(line)
}

/// A text is written character by character: what stands for two texts one after
/// the other is what stands for the one and then what stands for the other.
pub proof fn law_json_chars_in_turn(text: Seq<char>, more: Seq<char>)
    ensures
        json_chars(text + more) == json_chars(text) + json_chars(more),
    decreases more.len(),
{
    if more.len() == 0 {
        assert(text + more =~= text);
        assert(json_chars(text) + json_chars(more) =~= json_chars(text));
    } else {
        law_json_chars_in_turn(text, more.drop_last());
        assert((text + more).drop_last() =~= text + more.drop_last());
        assert(json_chars(text + more) =~= json_chars(text) + json_chars(more));
    }
}

/// A text of ordinary characters is written as it stands, however long it is.
pub proof fn law_ordinary_text_unchanged(text: Seq<char>)
    requires
        forall|i: int|
            0 <= i < text.len() ==> (#[trigger] text[i]) as int >= 0x20 && text[i] != '"'
                && text[i] != '\\',
    ensures
        json_chars(text) == text,
    decreases text.len(),
{
    if text.len() > 0 {
        let before = text.drop_last();
        assert forall|i: int| 0 <= i < before.len() implies (#[trigger] before[i]) as int >= 0x20
            && before[i] != '"' && before[i] != '\\' by {
            assert(before[i] == text[i]);
        }
        law_ordinary_text_unchanged(before);
        assert(text.last() == text[text.len() - 1]);
    }
    assert(json_chars(text) =~= text);
}

/// The other characters are written with a backslash: quote and backslash before
/// themselves, five control characters by a letter, and the rest by `u` and their
/// number in four hexadecimal digits.
pub proof fn law_other_characters_escaped(c: char, high: int, low: int)
    requires
        0 <= high < 2,
        0 <= low < 16,
        c as int == 16 * high + low,
    ensures
        json_chars(seq!['"']) == seq!['\\', '"'],
        json_chars(seq!['\\']) == seq!['\\', '\\'],
        json_chars(seq!['\u{8}']) == seq!['\\', 'b'],
        json_chars(seq!['\t']) == seq!['\\', 't'],
        json_chars(seq!['\n']) == seq!['\\', 'n'],
        json_chars(seq!['\u{c}']) == seq!['\\', 'f'],
        json_chars(seq!['\r']) == seq!['\\', 'r'],
        c != '\u{8}' && c != '\t' && c != '\n' && c != '\u{c}' && c != '\r' ==> json_chars(seq![c])
            == seq!['\\', 'u', '0', '0'] + seq![
            seq!['0', '1'][high],
            seq![
                '0',
                '1',
                '2',
                '3',
                '4',
                '5',
                '6',
                '7',
                '8',
                '9',
                'a',
                'b',
                'c',
                'd',
                'e',
                'f',
            ][low],
        ],
{
    lemma_json_chars_of_one('"');
    lemma_json_chars_of_one('\\');
    lemma_json_chars_of_one('\u{8}');
    lemma_json_chars_of_one('\t');
    lemma_json_chars_of_one('\n');
    lemma_json_chars_of_one('\u{c}');
    lemma_json_chars_of_one('\r');
    lemma_json_chars_of_one(c);
    assert(c as int / 16 == high && c as int % 16 == low);
    if c != '\u{8}' && c != '\t' && c != '\n' && c != '\u{c}' && c != '\r' {
        let digits = seq![
            '0',
            '1',
            '2',
            '3',
            '4',
            '5',
            '6',
            '7',
            '8',
            '9',
            'a',
            'b',
            'c',
            'd',
            'e',
            'f',
        ];
        assert(digits[low] == hex_digit(low));
        assert(seq!['0', '1'][high] == hex_digit(high));
        assert(json_char(c) =~= seq!['\\', 'u', '0', '0'] + seq![
            seq!['0', '1'][high],
            digits[low],
        ]);
    }
}

proof fn lemma_json_chars_of_one(c: char)
    ensures
        json_chars(seq![c]) == json_char(c),
{
    assert(seq![c].drop_last() =~= Seq::<char>::empty());
    assert(json_chars(Seq::<char>::empty()) =~= Seq::empty());
    assert(json_chars(seq![c]) =~= json_char(c));
}

proof fn lemma_json_chars_first(text: Seq<char>)
    requires
        text.len() > 0,
    ensures
        json_chars(text) == json_char(text[0]) + json_chars(text.drop_first()),
{
    assert(seq![text[0]] + text.drop_first() =~= text);
    law_json_chars_in_turn(seq![text[0]], text.drop_first());
    lemma_json_chars_of_one(text[0]);
}

/// What stands for a character tells the character, and where it ends.
proof fn lemma_json_char_told(c: char, d: char, x: Seq<char>, y: Seq<char>)
    requires
        json_char(c) + x == json_char(d) + y,
    ensures
        c == d,
        x == y,
{
    let s = json_char(c) + x;
    let t = json_char(d) + y;
    assert(s[0] == json_char(c)[0]);
    assert(t[0] == json_char(d)[0]);
    if json_char(c)[0] == '\\' {
        assert(json_char(c).len() >= 2 && json_char(d).len() >= 2);
        assert(s[1] == json_char(c)[1]);
        assert(t[1] == json_char(d)[1]);
        if json_char(c)[1] == 'u' {
            assert(json_char(c).len() == 6 && json_char(d).len() == 6);
            assert(s[4] == json_char(c)[4] && s[5] == json_char(c)[5]);
            assert(t[4] == json_char(d)[4] && t[5] == json_char(d)[5]);
            assert(c as int / 16 == d as int / 16);
            assert(c as int % 16 == d as int % 16);
        }
    }
    assert(c == d);
    let n = json_char(c).len() as int;
    assert(s.skip(n) =~= x);
    assert(t.skip(n) =~= y);
}

/// What stands for a text, up to the quote behind it, tells the text.
proof fn lemma_json_chars_told(a: Seq<char>, b: Seq<char>, x: Seq<char>, y: Seq<char>)
    requires
        json_chars(a) + (seq!['"'] + x) == json_chars(b) + (seq!['"'] + y),
    ensures
        a == b,
        x == y,
    decreases a.len(),
{
    let s = json_chars(a) + (seq!['"'] + x);
    let t = json_chars(b) + (seq!['"'] + y);
    if a.len() > 0 {
        lemma_json_chars_first(a);
        assert(s =~= json_char(a[0]) + (json_chars(a.drop_first()) + (seq!['"'] + x)));
        assert(s[0] == json_char(a[0])[0]);
    } else {
        assert(s =~= seq!['"'] + x);
    }
    if b.len() > 0 {
        lemma_json_chars_first(b);
        assert(t =~= json_char(b[0]) + (json_chars(b.drop_first()) + (seq!['"'] + y)));
        assert(t[0] == json_char(b[0])[0]);
    } else {
        assert(t =~= seq!['"'] + y);
    }
    if a.len() > 0 && b.len() > 0 {
        lemma_json_char_told(
            a[0],
            b[0],
            json_chars(a.drop_first()) + (seq!['"'] + x),
            json_chars(b.drop_first()) + (seq!['"'] + y),
        );
        lemma_json_chars_told(a.drop_first(), b.drop_first(), x, y);
        assert(a =~= seq![a[0]] + a.drop_first());
        assert(b =~= seq![b[0]] + b.drop_first());
    } else {
        assert(a.len() == 0 && b.len() == 0);
        assert(a =~= b);
        assert((seq!['"'] + x).skip(1) =~= x);
        assert((seq!['"'] + y).skip(1) =~= y);
    }
}

/// A line holds the task and the outcome in full: it is a JSON array of the two
/// texts, or of the text and `null`, and the same line never stands for two
/// different pairs.
pub proof fn law_line_holds_both(
    name: Seq<char>,
    content: Option<Seq<char>>,
    other_name: Seq<char>,
    other_content: Option<Seq<char>>,
)
    ensures
        json_line(name, content) == seq!['[', '"'] + json_chars(name) + seq!['"', ','] + (
        match content {
            Some(c) => seq!['"'] + json_chars(c) + seq!['"'],
            None => seq!['n', 'u', 'l', 'l'],
        }) + seq![']'],
        json_line(name, content) == json_line(other_name, other_content) ==> name == other_name
            && content == other_content,
{
    let quote = seq!['"'];
    let x = seq![','] + json_value(content) + seq![']'];
    let y = seq![','] + json_value(other_content) + seq![']'];
    let line = json_line(name, content);
    let other = json_line(other_name, other_content);
    assert(line =~= seq!['[', '"'] + json_chars(name) + seq!['"', ','] + (match content {
        Some(c) => seq!['"'] + json_chars(c) + seq!['"'],
        None => seq!['n', 'u', 'l', 'l'],
    }) + seq![']']);
    assert(line =~= seq!['[', '"'] + (json_chars(name) + (quote + x)));
    assert(other =~= seq!['[', '"'] + (json_chars(other_name) + (quote + y)));
    if line == other {
        assert(line.skip(2) =~= json_chars(name) + (quote + x));
        assert(other.skip(2) =~= json_chars(other_name) + (quote + y));
        lemma_json_chars_told(name, other_name, x, y);
        assert(x[1] == json_value(content)[0]);
        assert(y[1] == json_value(other_content)[0]);
        if let (Some(c), Some(d)) = (content, other_content) {
            assert(x =~= seq![',', '"'] + (json_chars(c) + (quote + seq![']'])));
            assert(y =~= seq![',', '"'] + (json_chars(d) + (quote + seq![']'])));
            assert(x.skip(2) =~= json_chars(c) + (quote + seq![']']));
            assert(y.skip(2) =~= json_chars(d) + (quote + seq![']']));
            lemma_json_chars_told(c, d, seq![']'], seq![']']);
        }
    }
}

/// A text is a task by all of its characters.
pub proof fn law_text_task_told_apart(task: String, other: String)
    ensures
        task.spec_name() == other.spec_name() <==> task@ == other@,
        task.spec_name() == task@,
{
}

/// A text outcome is recorded with all of its characters, whatever they are: the
/// line for it is the JSON array of the characters of the task and of the outcome,
/// two outcomes with different characters are never recorded by the same line, and
/// a line is read as the pair of texts that it is JSON for, or not at all.
pub proof fn law_text_outcome_recorded(
    task: String,
    outcome: String,
    other_task: String,
    other: String,
    line: Seq<char>,
    name: Seq<char>,
    content: Seq<char>,
)
    ensures
        <String as Outcome<String>>::line(
            task.spec_name(),
            <String as Outcome<String>>::content(&outcome),
        ) == Some(json_line(task@, Some(outcome@))),
        <String as Outcome<String>>::line(
            task.spec_name(),
            <String as Outcome<String>>::content(&outcome),
        ) == <String as Outcome<String>>::line(
            other_task.spec_name(),
            <String as Outcome<String>>::content(&other),
        ) ==> task@ == other_task@ && outcome@ == other@,
        <String as Outcome<String>>::content(&outcome) == outcome@,
        <String as Outcome<String>>::line(name, content) == Some(json_line(name, Some(content))),
        <String as Outcome<String>>::entry(line) == Some((name, content)) <==> json_entry(line)
            == Some((name, Some(content))),
{
    law_line_holds_both(task@, Some(outcome@), other_task@, Some(other@));
}

/// An outcome with nothing to tell is recorded as `null`: the line for it is the
/// JSON array of the characters of the task and `null`, and a line is read as the
/// task that it is such JSON for, or not at all.
pub proof fn law_empty_outcome_recorded(
    task: String,
    other_task: String,
    line: Seq<char>,
    name: Seq<char>,
    content: Seq<char>,
)
    ensures
        <() as Outcome<String>>::line(task.spec_name(), <() as Outcome<String>>::content(&()))
            == Some(json_line(task@, None)),
        <() as Outcome<String>>::line(task.spec_name(), content) == <() as Outcome<String>>::line(
            other_task.spec_name(),
            content,
        ) ==> task@ == other_task@,
        <() as Outcome<String>>::content(&()).len() == 0,
        <() as Outcome<String>>::line(name, content) == Some(json_line(name, None)),
        <() as Outcome<String>>::entry(line) == Some((name, content)) <==> json_entry(line) == Some(
            (name, None::<Seq<char>>),
        ) && content.len() == 0,
{
    law_line_holds_both(task@, None, other_task@, None);
    if content.len() == 0 {
        assert(content =~= Seq::empty());
    }
}

/// A line records a name and a content if and only if it is read as them and, with
/// a line feed behind it, stays one line.
pub proof fn law_what_records<T: Task, V: Outcome<T>>(
    line: Seq<char>,
    name: Seq<char>,
    content: Seq<char>,
)
    ensures
        records::<T, V>(line, name, content) <==> V::entry(line) == Some((name, content))
            && lines_of(line.push('\n')) == seq![line],
{
    law_what_fits_one_line(line);
}

} // verus!
