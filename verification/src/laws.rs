//! What holds of the counts of every file, and of every run.

use crate::args::{column_if, Column, FlagArgs};
use crate::error::WcError;
use crate::file_stat::{
    lemma_counts_ordered, longest_line, scanned, total_bytes, total_words, FileStat, FileStatView,
};
use crate::input::manifest_paths;
use crate::lines::{first_break, lemma_first_break, lines_of, LINE_FEED};
use crate::report::{data_rows, diagnostic_lines, diagnostic_of, row_of};
use crate::cell::cell_accepts;
use crate::table::{header_titles, stat_cells};
use crate::text::{is_blank, lemma_no_word_iff_blank, word_count, word_starts_at};
use vstd::prelude::*;
use vstd::utf8::decode_utf8;

verus! {

/// The number of line feeds in `content`.
pub open spec fn count_line_feeds(content: Seq<u8>) -> nat
    decreases content.len(),
{
    if content.len() == 0 {
        0
    } else {
        count_line_feeds(content.drop_first()) + if content[0] == LINE_FEED {
            1nat
        } else {
            0nat
        }
    }
}

/// True when the content ends in a line that no line feed terminates.
pub open spec fn ends_unterminated(content: Seq<u8>) -> bool {
    content.len() > 0 && content.last() != LINE_FEED
}

/// True when every line is empty.
pub open spec fn all_empty(lines: Seq<Seq<u8>>) -> bool {
    forall|i: int| 0 <= i < lines.len() ==> (#[trigger] lines[i]).len() == 0
}

/// True when every line is empty or holds whitespace only.
pub open spec fn all_blank(lines: Seq<Seq<u8>>) -> bool {
    forall|i: int| 0 <= i < lines.len() ==> is_blank(decode_utf8(#[trigger] lines[i]))
}

/// The line feeds of a content are the first one, where there is one, and those after it.
proof fn lemma_count_from_first_break(content: Seq<u8>)
    ensures
        first_break(content) < content.len() ==> count_line_feeds(content) == 1
            + count_line_feeds(content.skip(first_break(content) + 1)),
        first_break(content) >= content.len() ==> count_line_feeds(content) == 0,
    decreases content.len(),
{
    lemma_first_break(content);
    if content.len() == 0 {
    } else if content[0] == LINE_FEED {
        assert(content.skip(1) =~= content.drop_first());
    } else {
        let rest = content.drop_first();
        lemma_count_from_first_break(rest);
        lemma_first_break(rest);
        if first_break(rest) < rest.len() {
            assert(rest.skip(first_break(rest) + 1) =~= content.skip(first_break(content) + 1));
        }
    }
}

/// A content has one line for each line feed, and one more where its last line is not
/// terminated.
pub proof fn lemma_line_count(content: Seq<u8>)
    ensures
        lines_of(content).len() == count_line_feeds(content) + if ends_unterminated(content) {
            1nat
        } else {
            0nat
        },
    decreases content.len(),
{
    lemma_first_break(content);
    lemma_count_from_first_break(content);
    let end = first_break(content);
    if content.len() > 0 && end < content.len() {
        let tail = content.skip(end + 1);
        lemma_line_count(tail);
        if tail.len() > 0 {
            assert(tail.last() == content.last());
        }
    } else if content.len() > 0 {
        assert(content.last() == content[content.len() - 1]);
    }
}

/// A file whose last line is terminated, or that holds no line feed at all, has as many
/// lines as line feeds; but one line where it is a single unterminated line, and none
/// where it is empty.
pub proof fn lemma_line_count_is_terminator_count(content: Seq<u8>)
    requires
        content.len() == 0 || content.last() == LINE_FEED || count_line_feeds(content) == 0,
    ensures
        lines_of(content).len() == if count_line_feeds(content) > 0 {
            count_line_feeds(content)
        } else if content.len() > 0 {
            1nat
        } else {
            0nat
        },
{
    lemma_line_count(content);
    if content.len() > 0 && content.last() == LINE_FEED {
        lemma_count_positive(content, content.len() - 1);
    }
}

/// A content that holds a line feed counts at least one.
proof fn lemma_count_positive(content: Seq<u8>, at: int)
    requires
        0 <= at < content.len(),
        content[at] == LINE_FEED,
    ensures
        count_line_feeds(content) > 0,
    decreases content.len(),
{
    if at > 0 {
        lemma_count_positive(content.drop_first(), at - 1);
    }
}

/// Only empty content has no line.
pub proof fn lemma_no_line_iff_empty(content: Seq<u8>)
    ensures
        lines_of(content).len() == 0 <==> content.len() == 0,
{
    lemma_first_break(content);
}

/// A file is empty exactly when it has no line and no byte to count.
pub proof fn lemma_empty_iff_no_counts(content: Seq<u8>)
    ensures
        content.len() == 0 <==> total_bytes(lines_of(content)) == 0 && lines_of(content).len()
            == 0,
{
    lemma_no_line_iff_empty(content);
}

/// The byte count is the sum of the lengths of the lines: the count of no line is 0, and
/// each further line adds its length.
pub proof fn lemma_byte_count_is_sum(lines: Seq<Seq<u8>>, line: Seq<u8>)
    ensures
        total_bytes(Seq::empty()) == 0,
        total_bytes(lines.push(line)) == total_bytes(lines) + line.len(),
{
    assert(lines.push(line).drop_last() =~= lines);
}

/// The longest line is as long as some line and no shorter than any.
pub proof fn lemma_longest_line(lines: Seq<Seq<u8>>)
    ensures
        forall|i: int| 0 <= i < lines.len() ==> (#[trigger] lines[i]).len() <= longest_line(lines),
        lines.len() > 0 ==> exists|i: int|
            0 <= i < lines.len() && (#[trigger] lines[i]).len() == longest_line(lines),
    decreases lines.len(),
{
    if lines.len() > 0 {
        let front = lines.drop_last();
        lemma_longest_line(front);
        assert forall|i: int| 0 <= i < lines.len() implies (#[trigger] lines[i]).len()
            <= longest_line(lines) by {
            if i < front.len() {
                assert(lines[i] == front[i]);
            }
        }
        if lines.last().len() > longest_line(front) || front.len() == 0 {
            assert(lines[lines.len() - 1].len() == longest_line(lines));
        } else {
            let i = choose|i: int|
                0 <= i < front.len() && (#[trigger] front[i]).len() == longest_line(front);
            assert(lines[i] == front[i]);
        }
    }
}

/// The longest line has length 0 exactly when every line is empty.
pub proof fn lemma_longest_zero_iff_all_empty(lines: Seq<Seq<u8>>)
    ensures
        longest_line(lines) == 0 <==> all_empty(lines),
{
    lemma_longest_line(lines);
}

/// Of a file that is empty or has a line that is not, the longest line has length 0
/// exactly when the file is empty.
pub proof fn lemma_longest_zero_iff_empty(content: Seq<u8>)
    requires
        content.len() == 0 || !all_empty(lines_of(content)),
    ensures
        longest_line(lines_of(content)) == 0 <==> content.len() == 0,
{
    lemma_longest_zero_iff_all_empty(lines_of(content));
    lemma_no_line_iff_empty(content);
}

/// The positions of `text` at which a word begins.
pub open spec fn word_starts(text: Seq<char>) -> Set<int> {
    Set::new(|i: int| word_starts_at(text, i))
}

/// The word count of a text is the number of positions at which a word begins.
pub proof fn lemma_word_count_is_number_of_starts(text: Seq<char>)
    ensures
        word_starts(text).finite(),
        word_count(text) == word_starts(text).len(),
    decreases text.len(),
{
    if text.len() == 0 {
        assert(word_starts(text) =~= Set::empty());
    } else {
        let front = text.drop_last();
        let last = text.len() - 1;
        lemma_word_count_is_number_of_starts(front);
        assert forall|i: int| i != last implies word_starts_at(text, i) == word_starts_at(
            front,
            i,
        ) by {
            if 0 <= i < last {
                assert(text[i] == front[i]);
                if i > 0 {
                    assert(text[i - 1] == front[i - 1]);
                }
            }
        }
        if word_starts_at(text, last) {
            assert(word_starts(text) =~= word_starts(front).insert(last));
        } else {
            assert(word_starts(text) =~= word_starts(front));
        }
    }
}

/// A file has no word exactly when each of its lines is empty or holds whitespace only.
pub proof fn lemma_no_word_iff_all_blank(lines: Seq<Seq<u8>>)
    ensures
        total_words(lines) == 0 <==> all_blank(lines),
    decreases lines.len(),
{
    if lines.len() > 0 {
        let front = lines.drop_last();
        lemma_no_word_iff_all_blank(front);
        lemma_no_word_iff_blank(decode_utf8(lines.last()));
        if all_blank(lines) {
            assert forall|i: int| 0 <= i < front.len() implies is_blank(
                decode_utf8(#[trigger] front[i]),
            ) by {
                assert(front[i] == lines[i]);
            }
            assert(is_blank(decode_utf8(lines[lines.len() - 1])));
        }
        if total_words(lines) == 0 {
            assert forall|i: int| 0 <= i < lines.len() implies is_blank(
                decode_utf8(#[trigger] lines[i]),
            ) by {
                if i < front.len() {
                    assert(lines[i] == front[i]);
                }
            }
        }
    }
}

/// The lines have no byte exactly when every one of them is empty.
pub proof fn lemma_no_byte_iff_all_empty(lines: Seq<Seq<u8>>)
    ensures
        total_bytes(lines) == 0 <==> all_empty(lines),
    decreases lines.len(),
{
    if lines.len() > 0 {
        let front = lines.drop_last();
        lemma_no_byte_iff_all_empty(front);
        if all_empty(lines) {
            assert forall|i: int| 0 <= i < front.len() implies (#[trigger] front[i]).len()
                == 0 by {
                assert(front[i] == lines[i]);
            }
            assert(lines[lines.len() - 1].len() == 0);
        }
        if total_bytes(lines) == 0 {
            assert forall|i: int| 0 <= i < lines.len() implies (#[trigger] lines[i]).len()
                == 0 by {
                if i < front.len() {
                    assert(lines[i] == front[i]);
                }
            }
        }
    }
}

/// True when the counts do not contradict each other: no more words than characters, no
/// more characters than bytes, no line longer than all lines together, and bytes only
/// where there is a line that has some.
pub open spec fn counts_agree(stat: FileStatView) -> bool {
    &&& stat.word_count <= stat.char_count <= stat.byte_count
    &&& stat.max_line_length <= stat.byte_count
    &&& (stat.max_line_length == 0 <==> stat.byte_count == 0)
    &&& (stat.line_count == 0 ==> stat.byte_count == 0)
}

/// The counts that a scan gives agree with each other.
pub proof fn lemma_scanned_counts_agree(
    name: Seq<char>,
    content: Seq<u8>,
    outcome: Result<FileStat, WcError>,
)
    requires
        scanned(name, content, outcome),
    ensures
        outcome matches Ok(stat) ==> counts_agree(stat@),
{
    if outcome is Ok {
        let lines = lines_of(content);
        lemma_counts_ordered(lines);
        lemma_no_byte_iff_all_empty(lines);
        lemma_longest_zero_iff_all_empty(lines);
    }
}

/// What the counts of a scanned file say of its content: it has a line for each line
/// feed and one more for an unterminated last line; its byte count is that of its lines;
/// its longest line has length 0 exactly when all its lines are empty; it has no word
/// exactly when all its lines are blank; and it has neither line nor byte exactly when
/// the content is empty.
pub proof fn lemma_scan_counts(name: Seq<char>, content: Seq<u8>, stat: FileStat)
    requires
        scanned(name, content, Ok(stat)),
    ensures
        stat.file_name@ == name,
        stat.line_count == count_line_feeds(content) + if ends_unterminated(content) {
            1nat
        } else {
            0nat
        },
        stat.byte_count == total_bytes(lines_of(content)),
        stat.max_line_length == 0 <==> all_empty(lines_of(content)),
        stat.word_count == 0 <==> all_blank(lines_of(content)),
        stat.line_count == 0 && stat.byte_count == 0 <==> content.len() == 0,
{
    lemma_line_count(content);
    lemma_longest_zero_iff_all_empty(lines_of(content));
    lemma_no_word_iff_all_blank(lines_of(content));
    lemma_empty_iff_no_counts(content);
}

/// Scanning is repeatable: two scans of the same content under the same name give the
/// same counts, or fail alike.
pub proof fn lemma_scan_repeatable(
    name: Seq<char>,
    content: Seq<u8>,
    first: Result<FileStat, WcError>,
    second: Result<FileStat, WcError>,
)
    requires
        scanned(name, content, first),
        scanned(name, content, second),
    ensures
        match (first, second) {
            (Ok(a), Ok(b)) => a@ == b@,
            (Err(a), Err(b)) => a is FileRead && b is FileRead && a.message_text()
                == b.message_text(),
            _ => false,
        },
{
}

/// True when the columns stand in the fixed order: each further to the left in that
/// order than the next.
pub open spec fn in_fixed_order(columns: Seq<Column>) -> bool {
    forall|i: int, j: int|
        0 <= i < j < columns.len() ==> (#[trigger] columns[i]).rank() < (
        #[trigger] columns[j]).rank()
}

/// Columns in the fixed order stay so when the column that comes next in that order is
/// put behind them, and then hold that column besides what they held.
proof fn lemma_next_column(columns: Seq<Column>, wanted: bool, column: Column)
    requires
        in_fixed_order(columns),
        forall|i: int| 0 <= i < columns.len() ==> (#[trigger] columns[i]).rank() < column.rank(),
    ensures
        in_fixed_order(columns + column_if(wanted, column)),
        forall|i: int|
            0 <= i < (columns + column_if(wanted, column)).len() ==> (#[trigger] (columns
                + column_if(wanted, column))[i]).rank() <= column.rank(),
        forall|other: Column| #[trigger]
            (columns + column_if(wanted, column)).contains(other) <==> columns.contains(other)
                || (wanted && other == column),
{
    let grown = columns + column_if(wanted, column);
    if wanted {
        assert(grown =~= columns.push(column));
        assert forall|other: Column| #[trigger]
            grown.contains(other) <==> columns.contains(other) || other == column by {
            if grown.contains(other) {
                let i = choose|i: int| 0 <= i < grown.len() && grown[i] == other;
                if i < columns.len() {
                    assert(columns[i] == other);
                }
            }
            if columns.contains(other) {
                let i = choose|i: int| 0 <= i < columns.len() && columns[i] == other;
                assert(grown[i] == other);
            }
            if other == column {
                assert(grown[columns.len() as int] == other);
            }
        }
    } else {
        assert(grown =~= columns);
    }
}

/// The columns stand in the fixed order, whatever was asked for and in whatever order:
/// the file's name first, then bytes, characters, lines, longest line, words. A count has
/// its column exactly when it was asked for, or when nothing was asked for and it is one
/// of bytes, characters and lines.
pub proof fn lemma_columns_in_fixed_order(flags: FlagArgs)
    ensures
        flags.columns()[0] == Column::File,
        in_fixed_order(flags.columns()),
        flags.columns().contains(Column::Bytes) <==> flags.bytes || flags.none_requested(),
        flags.columns().contains(Column::Chars) <==> flags.chars || flags.none_requested(),
        flags.columns().contains(Column::Lines) <==> flags.lines || flags.none_requested(),
        flags.columns().contains(Column::MaxLineLength) <==> flags.max_line_length,
        flags.columns().contains(Column::Words) <==> flags.words,
{
    let name = seq![Column::File];
    assert(name.contains(Column::File)) by {
        assert(name[0] == Column::File);
    }
    let default = FlagArgs {
        bytes: true,
        chars: true,
        lines: true,
        max_line_length: false,
        words: false,
    };
    let shown = if flags.none_requested() {
        default
    } else {
        flags
    };
    let with_bytes = name + column_if(shown.bytes, Column::Bytes);
    let with_chars = with_bytes + column_if(shown.chars, Column::Chars);
    let with_lines = with_chars + column_if(shown.lines, Column::Lines);
    let with_longest = with_lines + column_if(shown.max_line_length, Column::MaxLineLength);
    let with_words = with_longest + column_if(shown.words, Column::Words);
    lemma_next_column(name, shown.bytes, Column::Bytes);
    lemma_next_column(with_bytes, shown.chars, Column::Chars);
    lemma_next_column(with_chars, shown.lines, Column::Lines);
    lemma_next_column(with_lines, shown.max_line_length, Column::MaxLineLength);
    lemma_next_column(with_longest, shown.words, Column::Words);
    assert(flags.columns() =~= with_words);
}

/// The header and the row of every file have one cell for each selected column.
pub proof fn lemma_rows_match_header(stat: FileStatView, flags: FlagArgs)
    ensures
        header_titles(flags).len() == flags.columns().len(),
        stat_cells(stat, flags).len() == flags.columns().len(),
        2 <= flags.columns().len() <= 6,
{
}

/// The table keeps the order of the results: the rows of two runs of results, one after
/// the other, are the rows of the first followed by the rows of the second. The same
/// holds of the diagnostic lines.
pub proof fn lemma_rows_keep_order(
    first: Seq<Result<FileStat, WcError>>,
    second: Seq<Result<FileStat, WcError>>,
    flags: FlagArgs,
)
    ensures
        data_rows(first + second, flags) == data_rows(first, flags) + data_rows(second, flags),
        diagnostic_lines(first + second) == diagnostic_lines(first) + diagnostic_lines(second),
    decreases second.len(),
{
    if second.len() == 0 {
        assert(first + second =~= first);
        assert(data_rows(first, flags) + data_rows(second, flags) =~= data_rows(first, flags));
        assert(diagnostic_lines(first) + diagnostic_lines(second) =~= diagnostic_lines(first));
    } else {
        let front = second.drop_last();
        lemma_rows_keep_order(first, front, flags);
        assert((first + second).drop_last() =~= first + front);
        assert((first + second).last() == second.last());
        assert(data_rows(first + second, flags) =~= data_rows(first, flags) + data_rows(
            second,
            flags,
        ));
        assert(diagnostic_lines(first + second) =~= diagnostic_lines(first) + diagnostic_lines(
            second,
        ));
    }
}

/// A manifest names its paths in the order of its lines: the paths of two runs of lines,
/// one after the other, are the paths of the first followed by the paths of the second.
pub proof fn lemma_manifest_keeps_order(first: Seq<Seq<u8>>, second: Seq<Seq<u8>>)
    ensures
        manifest_paths(first + second) == manifest_paths(first) + manifest_paths(second),
    decreases second.len(),
{
    if second.len() == 0 {
        assert(first + second =~= first);
        assert(manifest_paths(first) + manifest_paths(second) =~= manifest_paths(first));
    } else {
        lemma_manifest_keeps_order(first, second.drop_last());
        assert((first + second).drop_last() =~= first + second.drop_last());
        assert((first + second).last() == second.last());
        assert(manifest_paths(first + second) =~= manifest_paths(first) + manifest_paths(
            second,
        ));
    }
}

/// A result alone gives its row, if it has one, and its diagnostic line, if it has one.
pub proof fn lemma_rows_of_one(result: Result<FileStat, WcError>, flags: FlagArgs)
    ensures
        data_rows(seq![result], flags) == match row_of(result, flags) {
            Some(row) => seq![row],
            None => Seq::empty(),
        },
        diagnostic_lines(seq![result]) == match diagnostic_of(result) {
            Some(line) => seq![line],
            None => Seq::empty(),
        },
{
    let one = seq![result];
    assert(one.drop_last() =~= Seq::empty());
    assert(one.last() == result);
    assert(data_rows(one.drop_last(), flags) =~= Seq::empty());
    assert(diagnostic_lines(one.drop_last()) =~= Seq::empty());
    match row_of(result, flags) {
        Some(row) => {
            assert(data_rows(one, flags) =~= seq![row]);
        },
        None => {},
    }
    match diagnostic_of(result) {
        Some(line) => {
            assert(diagnostic_lines(one) =~= seq![line]);
        },
        None => {},
    }
}

/// Where the second of three files fails, the table holds the rows of the first and the
/// third, in that order, and the failure gives the one diagnostic line.
pub proof fn lemma_failure_between_successes(
    first: FileStat,
    failure: WcError,
    third: FileStat,
    flags: FlagArgs,
)
    requires
        cell_accepts(first.file_name@),
        cell_accepts(third.file_name@),
    ensures
        data_rows(seq![Ok(first), Err(failure), Ok(third)], flags) == seq![
            stat_cells(first@, flags),
            stat_cells(third@, flags),
        ],
        diagnostic_lines(seq![Ok(first), Err(failure), Ok(third)]) == seq![failure.message_text()],
{
    let a: Seq<Result<FileStat, WcError>> = seq![Ok(first)];
    let b: Seq<Result<FileStat, WcError>> = seq![Err(failure)];
    let c: Seq<Result<FileStat, WcError>> = seq![Ok(third)];
    lemma_rows_of_one(Ok(first), flags);
    lemma_rows_of_one(Err(failure), flags);
    lemma_rows_of_one(Ok(third), flags);
    lemma_rows_keep_order(a, b, flags);
    lemma_rows_keep_order(a + b, c, flags);
    assert(a + b + c =~= seq![Ok(first), Err(failure), Ok(third)]);
    assert(data_rows(a + b + c, flags) =~= seq![
        stat_cells(first@, flags),
        stat_cells(third@, flags),
    ]);
    assert(diagnostic_lines(a + b + c) =~= seq![failure.message_text()]);
}

} // verus!
