//! What a table cell keeps of the text it is made from, and which texts it takes.
//!
//! A cell cuts its text into lines and measures each line. While it measures, it counts
//! the characters that stand inside terminal control sequences and takes them off the
//! width; it gives up on a line whose width is smaller than that count.

use vstd::prelude::*;
use vstd::std_specs::iter::IteratorSpec;

verus! {

/// The number of characters before the first line feed of `text`; its length where it
/// has none.
pub open spec fn first_feed(text: Seq<char>) -> int
    decreases text.len(),
{
    if text.len() == 0 || text[0] == '\n' {
        0
    } else {
        1 + first_feed(text.drop_first())
    }
}

/// A line without the carriage return that stood before its line feed.
pub open spec fn strip_return(line: Seq<char>) -> Seq<char> {
    if line.len() > 0 && line.last() == '\r' {
        line.drop_last()
    } else {
        line
    }
}

/// The lines of `text`: each ends with a line feed or with the text, and holds neither
/// that line feed nor a carriage return directly before it. An empty text has no line.
pub open spec fn text_lines(text: Seq<char>) -> Seq<Seq<char>>
    decreases text.len(),
{
    let end = first_feed(text);
    if text.len() == 0 {
        Seq::empty()
    } else if 0 <= end < text.len() {
        seq![strip_return(text.take(end))] + text_lines(text.skip(end + 1))
    } else {
        seq![text]
    }
}

/// The lines with a line feed between each two of them.
pub open spec fn join_lines(lines: Seq<Seq<char>>) -> Seq<char>
    decreases lines.len(),
{
    if lines.len() == 0 {
        Seq::empty()
    } else if lines.len() == 1 {
        lines[0]
    } else {
        join_lines(lines.drop_last()) + seq!['\n'] + lines.last()
    }
}

/// What a cell keeps of a text: its lines, joined again. The text loses the carriage
/// return before each line feed, and its last line feed where it ends in one.
pub open spec fn shown_text(text: Seq<char>) -> Seq<char> {
    join_lines(text_lines(text))
}

/// Where the measuring of a line stands with respect to terminal control sequences.
#[derive(Clone, Copy, Debug, PartialEq, Eq, Structural)]
pub enum Escape {
    /// Outside any control sequence.
    Normal,
    /// Directly behind an escape character.
    EscapeChar,
    /// Inside a control sequence, behind its `[`.
    OpenBracket,
    /// At the `m` that ends a control sequence.
    AfterEscape,
}

/// Where the measuring stands once it has read `c`.
pub open spec fn advance(state: Escape, c: char) -> Escape {
    match state {
        Escape::Normal => if c == '\u{1b}' {
            Escape::EscapeChar
        } else {
            Escape::Normal
        },
        Escape::EscapeChar => if c == '[' {
            Escape::OpenBracket
        } else {
            Escape::Normal
        },
        Escape::OpenBracket => if c == 'm' {
            Escape::AfterEscape
        } else {
            Escape::OpenBracket
        },
        Escape::AfterEscape => Escape::AfterEscape,
    }
}

/// Where the measuring goes on from: a control sequence that has ended is left.
pub open spec fn settle(state: Escape) -> Escape {
    if state == Escape::AfterEscape {
        Escape::Normal
    } else {
        state
    }
}

/// The width of a line in columns, as `unicode_width::UnicodeWidthStr::width` gives it.
pub uninterp spec fn text_width(text: Seq<char>) -> usize;

/// The width of a character in columns, if it has one, as
/// `unicode_width::UnicodeWidthChar::width` gives it.
pub uninterp spec fn char_width(c: char) -> Option<usize>;

/// True when `c` takes up at least one column.
pub open spec fn has_width(c: char) -> bool {
    match char_width(c) {
        Some(width) => width > 0,
        None => false,
    }
}

/// True when `c`, read in `state`, is counted as standing inside a control sequence.
pub open spec fn is_hidden(state: Escape, c: char) -> bool {
    let now = advance(state, c);
    (now == Escape::OpenBracket || now == Escape::AfterEscape) && has_width(c)
}

/// Where the measuring stands at the end of `line`.
pub open spec fn escape_state(line: Seq<char>) -> Escape
    decreases line.len(),
{
    if line.len() == 0 {
        Escape::Normal
    } else {
        settle(advance(escape_state(line.drop_last()), line.last()))
    }
}

/// The number of characters of `line` that are counted as standing inside control
/// sequences.
pub open spec fn hidden_count(line: Seq<char>) -> nat
    decreases line.len(),
{
    if line.len() == 0 {
        0
    } else {
        hidden_count(line.drop_last()) + if is_hidden(
            escape_state(line.drop_last()),
            line.last(),
        ) {
            1nat
        } else {
            0nat
        }
    }
}

/// True when the measuring of `line` succeeds: its width is at least its hidden count.
pub open spec fn line_fits(line: Seq<char>) -> bool {
    text_width(line) >= hidden_count(line)
}

/// True when a cell can be made from `text`: when each of its lines can be measured.
pub open spec fn cell_accepts(text: Seq<char>) -> bool {
    forall|i: int| 0 <= i < text_lines(text).len() ==> line_fits(#[trigger] text_lines(text)[i])
}

/// True when `text` holds neither a line feed nor an escape character.
pub open spec fn is_plain(text: Seq<char>) -> bool {
    forall|i: int| 0 <= i < text.len() ==> #[trigger] text[i] != '\n' && text[i] != '\u{1b}'
}

/// `first_feed` is the least index of a line feed.
pub proof fn lemma_first_feed(text: Seq<char>)
    ensures
        0 <= first_feed(text) <= text.len(),
        forall|i: int| 0 <= i < first_feed(text) ==> text[i] != '\n',
        first_feed(text) < text.len() ==> text[first_feed(text)] == '\n',
    decreases text.len(),
{
    if text.len() == 0 || text[0] == '\n' {
    } else {
        let rest = text.drop_first();
        lemma_first_feed(rest);
        assert forall|i: int| 0 <= i < first_feed(text) implies text[i] != '\n' by {
            if i > 0 {
                assert(text[i] == rest[i - 1]);
            }
        }
        if first_feed(text) < text.len() {
            assert(text[first_feed(text)] == rest[first_feed(rest)]);
        }
    }
}

/// An index before which no line feed stands, and at which the text ends or has a line
/// feed, is the first feed.
pub proof fn lemma_first_feed_unique(text: Seq<char>, end: int)
    requires
        0 <= end <= text.len(),
        forall|i: int| 0 <= i < end ==> text[i] != '\n',
        end < text.len() ==> text[end] == '\n',
    ensures
        first_feed(text) == end,
{
    lemma_first_feed(text);
}

/// A text without a line feed is its own single line, and a cell keeps it unchanged.
pub proof fn lemma_single_line(text: Seq<char>)
    requires
        !text.contains('\n'),
    ensures
        shown_text(text) == text,
        text.len() > 0 ==> text_lines(text) == seq![text],
        text.len() == 0 ==> text_lines(text) == Seq::<Seq<char>>::empty(),
{
    lemma_first_feed(text);
    if first_feed(text) < text.len() {
        assert(text.contains(text[first_feed(text)]));
    }
    if text.len() > 0 {
        assert(text_lines(text) =~= seq![text]);
    } else {
        assert(shown_text(text) =~= text);
    }
}

/// A line without an escape character has no hidden character.
pub proof fn lemma_no_escape_no_hidden(line: Seq<char>)
    requires
        forall|i: int| 0 <= i < line.len() ==> line[i] != '\u{1b}',
    ensures
        escape_state(line) == Escape::Normal,
        hidden_count(line) == 0,
    decreases line.len(),
{
    if line.len() > 0 {
        let front = line.drop_last();
        assert forall|i: int| 0 <= i < front.len() implies front[i] != '\u{1b}' by {
            assert(front[i] == line[i]);
        }
        lemma_no_escape_no_hidden(front);
        assert(line.last() == line[line.len() - 1]);
    }
}

/// A plain text can stand in a cell, and the cell keeps it unchanged.
pub proof fn lemma_plain_text(text: Seq<char>)
    requires
        is_plain(text),
    ensures
        cell_accepts(text),
        shown_text(text) == text,
{
    assert(!text.contains('\n'));
    lemma_single_line(text);
    lemma_no_escape_no_hidden(text);
}

/// A line has at most as many hidden characters as characters.
pub proof fn lemma_hidden_count_bound(line: Seq<char>)
    ensures
        hidden_count(line) <= line.len(),
    decreases line.len(),
{
    if line.len() > 0 {
        lemma_hidden_count_bound(line.drop_last());
    }
}

/// `unicode_width::UnicodeWidthStr::width` measures a text in columns.
///
/// Believed of it: the width depends on the characters of the text alone; `text_width`
/// names it.
#[verifier::external_body]
pub(crate) fn width_of_text(text: &str) -> (width: usize)
    ensures
        width == text_width(text@),
{
    unicode_width::UnicodeWidthStr::width(text)
}

/// `unicode_width::UnicodeWidthChar::width` measures a character in columns, and gives
/// none for a control character.
///
/// Believed of it: the width depends on the character alone; `char_width` names it.
#[verifier::external_body]
pub(crate) fn width_of_char(c: char) -> (width: Option<usize>)
    ensures
        width == char_width(c),
{
    unicode_width::UnicodeWidthChar::width(c)
}

/// The characters of `text`, one by one.
pub fn chars_of(text: &str) -> (chars: Vec<char>)
    ensures
        chars@ == text@,
{
    let mut chars: Vec<char> = Vec::new();
    let mut rest = text.chars();
    loop
        invariant
            chars@.len() <= text@.len(),
            rest.remaining() == text@.skip(chars@.len() as int),
            chars@ == text@.take(chars@.len() as int),
        decreases text@.len() - chars@.len(),
    {
        match rest.next() {
            Some(c) => {
                let ghost before = chars@;
                chars.push(c);
                assert(chars@ =~= text@.take(before.len() as int + 1));
            },
            None => {
                assert(chars@ =~= text@);
                return chars;
            },
        }
    }
}

/// Where the line of `text` that starts at `start` ends, and where the next one starts.
pub fn next_text_line(text: &Vec<char>, start: usize) -> (bounds: (usize, usize))
    requires
        start < text.len(),
    ensures
        start <= bounds.0 <= bounds.1 <= text.len(),
        start < bounds.1,
        text_lines(text@.skip(start as int)) == seq![
            text@.subrange(start as int, bounds.0 as int),
        ] + text_lines(text@.skip(bounds.1 as int)),
{
    let ghost rest = text@.skip(start as int);
    let mut at: usize = start;
    while at < text.len() && text[at] != '\n'
        invariant
            start <= at <= text.len(),
            rest == text@.skip(start as int),
            forall|i: int| 0 <= i < at - start ==> rest[i] != '\n',
        decreases text.len() - at,
    {
        at = at + 1;
    }
    proof {
        lemma_first_feed_unique(rest, at - start);
    }
    if at == text.len() {
        proof {
            assert(rest =~= text@.subrange(start as int, at as int));
            assert(text_lines(text@.skip(at as int)) =~= Seq::<Seq<char>>::empty());
            assert(text_lines(rest) =~= seq![rest]);
        }
        (at, at)
    } else {
        let end: usize = if at > start && text[at - 1] == '\r' {
            at - 1
        } else {
            at
        };
        proof {
            let line = rest.take(at - start);
            assert(line =~= text@.subrange(start as int, at as int));
            assert(strip_return(line) =~= text@.subrange(start as int, end as int));
            assert(rest.skip(at - start + 1) =~= text@.skip(at + 1));
        }
        (end, at + 1)
    }
}

/// Where the measuring stands once it has read `c`.
pub fn advance_state(state: Escape, c: char) -> (now: Escape)
    ensures
        now == advance(state, c),
{
    match state {
        Escape::Normal => if c == '\u{1b}' {
            Escape::EscapeChar
        } else {
            Escape::Normal
        },
        Escape::EscapeChar => if c == '[' {
            Escape::OpenBracket
        } else {
            Escape::Normal
        },
        Escape::OpenBracket => if c == 'm' {
            Escape::AfterEscape
        } else {
            Escape::OpenBracket
        },
        Escape::AfterEscape => Escape::AfterEscape,
    }
}

/// Counts the characters between `start` and `end` that stand inside control sequences.
pub fn count_hidden(text: &Vec<char>, start: usize, end: usize) -> (hidden: usize)
    requires
        start <= end <= text.len(),
    ensures
        hidden == hidden_count(text@.subrange(start as int, end as int)),
{
    let mut hidden: usize = 0;
    let mut state: Escape = Escape::Normal;
    let mut at: usize = start;
    while at < end
        invariant
            start <= at <= end <= text.len(),
            hidden == hidden_count(text@.subrange(start as int, at as int)),
            state == escape_state(text@.subrange(start as int, at as int)),
            hidden <= at - start,
        decreases end - at,
    {
        let c: char = text[at];
        proof {
            let grown = text@.subrange(start as int, at + 1);
            assert(grown.drop_last() =~= text@.subrange(start as int, at as int));
            assert(grown.last() == c);
        }
        let now: Escape = advance_state(state, c);
        let inside: bool = match now {
            Escape::OpenBracket => true,
            Escape::AfterEscape => true,
            _ => false,
        };
        if inside {
            let wide: bool = match width_of_char(c) {
                Some(width) => width > 0,
                None => false,
            };
            if wide {
                hidden = hidden + 1;
            }
        }
        state = match now {
            Escape::AfterEscape => Escape::Normal,
            _ => now,
        };
        at = at + 1;
    }
    hidden
}

/// What a cell keeps of `text`.
pub fn shown(text: &str) -> (kept: String)
    ensures
        kept@ == shown_text(text@),
{
    let chars: Vec<char> = chars_of(text);
    let mut kept: String = String::new();
    let mut start: usize = 0;
    let ghost mut done: Seq<Seq<char>> = Seq::empty();
    proof {
        reveal_strlit("\n");
        assert(chars@.skip(0) =~= chars@);
        assert(kept@ =~= join_lines(done));
    }
    while start < chars.len()
        invariant
            start <= chars.len(),
            chars@ == text@,
            text_lines(text@) == done + text_lines(text@.skip(start as int)),
            kept@ == join_lines(done),
            "\n"@ == seq!['\n'],
            done.len() == 0 <==> start == 0,
        decreases chars.len() - start,
    {
        let (end, next) = next_text_line(&chars, start);
        let line: &str = text.substring_char(start, end);
        let ghost grown = done.push(line@);
        proof {
            assert(grown.drop_last() =~= done);
            assert(text_lines(text@) =~= grown + text_lines(text@.skip(next as int)));
        }
        if start > 0 {
            kept.append("\n");
        }
        kept.append(line);
        proof {
            assert(kept@ =~= join_lines(grown));
            done = grown;
        }
        start = next;
    }
    assert(text_lines(text@) =~= done);
    kept
}

/// Tells whether a cell can be made from `text`.
pub fn can_show(text: &str) -> (r: bool)
    ensures
        r == cell_accepts(text@),
{
    let chars: Vec<char> = chars_of(text);
    let mut start: usize = 0;
    let ghost mut done: Seq<Seq<char>> = Seq::empty();
    assert(chars@.skip(0) =~= chars@);
    while start < chars.len()
        invariant
            start <= chars.len(),
            chars@ == text@,
            text_lines(text@) == done + text_lines(text@.skip(start as int)),
            forall|i: int| 0 <= i < done.len() ==> line_fits(#[trigger] done[i]),
        decreases chars.len() - start,
    {
        let (end, next) = next_text_line(&chars, start);
        let line: &str = text.substring_char(start, end);
        let ghost grown = done.push(line@);
        proof {
            assert(text_lines(text@) =~= grown + text_lines(text@.skip(next as int)));
            assert(text_lines(text@)[done.len() as int] == line@);
        }
        let width: usize = width_of_text(line);
        let hidden: usize = count_hidden(&chars, start, end);
        if width < hidden {
            return false;
        }
        proof {
            done = grown;
        }
        start = next;
    }
    assert(text_lines(text@) =~= done);
    true
}

} // verus!
