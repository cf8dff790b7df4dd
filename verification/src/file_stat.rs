//! The counts of one file.

use crate::args::Column;
use crate::decimal::{decimal_digits, decimal_string};
use crate::error::{invalid_utf8_text, WcError};
use crate::lines::{lines_of, next_line};
use crate::text::{
    count_text, lemma_chars_at_most_bytes, lemma_word_count_bound, text_of_bytes, word_count,
};
use vstd::prelude::*;
use vstd::slice::slice_subrange;
use vstd::string::StringSliceAdditionalSpecFns;
use vstd::utf8::{decode_utf8, decode_utf8_encode_utf8, encode_utf8_decode_utf8, valid_utf8};

verus! {

/// The counts of one file that was read to its end.
#[derive(Clone, Debug, PartialEq, Eq)]
pub struct FileStat {
    /// The path as the caller gave it.
    pub file_name: String,
    /// The bytes of all lines, line terminators left out.
    pub byte_count: usize,
    /// The characters of all lines.
    pub char_count: usize,
    /// The number of lines.
    pub line_count: usize,
    /// The bytes of the longest line; 0 when there is none.
    pub max_line_length: usize,
    /// The words of all lines.
    pub word_count: usize,
}

/// A `FileStat` as mathematical values.
pub struct FileStatView {
    pub file_name: Seq<char>,
    pub byte_count: nat,
    pub char_count: nat,
    pub line_count: nat,
    pub max_line_length: nat,
    pub word_count: nat,
}

impl View for FileStat {
    type V = FileStatView;

    open spec fn view(&self) -> FileStatView {
        FileStatView {
            file_name: self.file_name@,
            byte_count: self.byte_count as nat,
            char_count: self.char_count as nat,
            line_count: self.line_count as nat,
            max_line_length: self.max_line_length as nat,
            word_count: self.word_count as nat,
        }
    }
}

impl FileStatView {
    /// What the file's row says in `column`: the name, or a count in decimal.
    pub open spec fn text(self, column: Column) -> Seq<char> {
        match column {
            Column::File => self.file_name,
            Column::Bytes => decimal_digits(self.byte_count),
            Column::Chars => decimal_digits(self.char_count),
            Column::Lines => decimal_digits(self.line_count),
            Column::MaxLineLength => decimal_digits(self.max_line_length),
            Column::Words => decimal_digits(self.word_count),
        }
    }
}

/// True when every line is valid UTF-8, so that the file can be counted.
pub open spec fn all_valid(lines: Seq<Seq<u8>>) -> bool {
    forall|i: int| 0 <= i < lines.len() ==> valid_utf8(#[trigger] lines[i])
}

/// The bytes of all lines together.
pub open spec fn total_bytes(lines: Seq<Seq<u8>>) -> nat
    decreases lines.len(),
{
    if lines.len() == 0 {
        0
    } else {
        total_bytes(lines.drop_last()) + lines.last().len()
    }
}

/// The characters of all lines together.
pub open spec fn total_chars(lines: Seq<Seq<u8>>) -> nat
    decreases lines.len(),
{
    if lines.len() == 0 {
        0
    } else {
        total_chars(lines.drop_last()) + decode_utf8(lines.last()).len()
    }
}

/// The words of all lines together.
pub open spec fn total_words(lines: Seq<Seq<u8>>) -> nat
    decreases lines.len(),
{
    if lines.len() == 0 {
        0
    } else {
        total_words(lines.drop_last()) + word_count(decode_utf8(lines.last()))
    }
}

/// The bytes of the longest line; 0 where there is no line.
pub open spec fn longest_line(lines: Seq<Seq<u8>>) -> nat
    decreases lines.len(),
{
    if lines.len() == 0 {
        0
    } else if lines.last().len() > longest_line(lines.drop_last()) {
        lines.last().len()
    } else {
        longest_line(lines.drop_last())
    }
}

/// The counts of a file with the given name and lines.
pub open spec fn stat_of(name: Seq<char>, lines: Seq<Seq<u8>>) -> FileStatView {
    FileStatView {
        file_name: name,
        byte_count: total_bytes(lines),
        char_count: total_chars(lines),
        line_count: lines.len(),
        max_line_length: longest_line(lines),
        word_count: total_words(lines),
    }
}

/// What scanning `content` under `name` gives: the counts of its lines where all of them
/// are valid UTF-8, else a read failure that names the file.
pub open spec fn scanned(
    name: Seq<char>,
    content: Seq<u8>,
    outcome: Result<FileStat, WcError>,
) -> bool {
    match outcome {
        Ok(stat) => all_valid(lines_of(content)) && stat@ == stat_of(name, lines_of(content)),
        Err(WcError::FileRead { path, reason }) => !all_valid(lines_of(content)) && path@ == name
            && reason@ == invalid_utf8_text(),
        Err(_) => false,
    }
}

/// Of the counts of valid lines, the words are at most the characters, these at most the
/// bytes, and the longest line is no longer than all lines together.
pub proof fn lemma_counts_ordered(lines: Seq<Seq<u8>>)
    requires
        all_valid(lines),
    ensures
        total_words(lines) <= total_chars(lines) <= total_bytes(lines),
        longest_line(lines) <= total_bytes(lines),
    decreases lines.len(),
{
    if lines.len() > 0 {
        let front = lines.drop_last();
        assert forall|i: int| 0 <= i < front.len() implies valid_utf8(#[trigger] front[i]) by {
            assert(front[i] == lines[i]);
        }
        lemma_counts_ordered(front);
        let text = decode_utf8(lines.last());
        lemma_word_count_bound(text);
        lemma_chars_at_most_bytes(text);
        decode_utf8_encode_utf8(lines.last());
    }
}

impl FileStat {
    /// Counts the lines, words, characters and bytes of a file's content.
    ///
    /// The file is counted as a whole or not at all: where a line is not valid UTF-8, the
    /// result is a read failure and no count is given.
    pub fn scan(file_name: &str, content: &[u8]) -> (outcome: Result<FileStat, WcError>)
        ensures
            scanned(file_name@, content@, outcome),
    {
        let mut byte_count: usize = 0;
        let mut char_count: usize = 0;
        let mut line_count: usize = 0;
        let mut word_count: usize = 0;
        let mut max_line_length: usize = 0;
        let mut start: usize = 0;
        let ghost mut done: Seq<Seq<u8>> = Seq::empty();
        assert(content@.skip(0) =~= content@);
        while start < content.len()
            invariant
                start <= content.len(),
                lines_of(content@) == done + lines_of(content@.skip(start as int)),
                all_valid(done),
                byte_count == total_bytes(done),
                char_count == total_chars(done),
                line_count == done.len(),
                word_count == total_words(done),
                max_line_length == longest_line(done),
                byte_count <= start,
                line_count <= start,
            decreases content.len() - start,
        {
            let (end, next) = next_line(content, start);
            let line: &[u8] = slice_subrange(content, start, end);
            let ghost grown = done.push(line@);
            proof {
                assert(grown.drop_last() =~= done);
                assert(lines_of(content@) =~= grown + lines_of(content@.skip(next as int)));
                assert(lines_of(content@)[done.len() as int] == line@);
            }
            match text_of_bytes(line) {
                Some(text) => {
                    proof {
                        encode_utf8_decode_utf8(text@);
                        assert(all_valid(grown));
                        lemma_counts_ordered(grown);
                    }
                    let (chars, words) = count_text(text);
                    let bytes: usize = end - start;
                    byte_count = byte_count + bytes;
                    char_count = char_count + chars;
                    line_count = line_count + 1;
                    word_count = word_count + words;
                    if bytes > max_line_length {
                        max_line_length = bytes;
                    }
                },
                None => {
                    return Err(
                        WcError::FileRead {
                            path: file_name.to_owned(),
                            reason: String::from_str("stream did not contain valid UTF-8"),
                        },
                    );
                },
            }
            proof {
                done = grown;
            }
            start = next;
        }
        assert(lines_of(content@) =~= done);
        Ok(
            FileStat {
                file_name: file_name.to_owned(),
                byte_count,
                char_count,
                line_count,
                max_line_length,
                word_count,
            },
        )
    }

    /// What the file's row says in `column`.
    pub fn column_text(&self, column: Column) -> (text: String)
        ensures
            text@ == self@.text(column),
    {
        match column {
            Column::File => self.file_name.clone(),
            Column::Bytes => decimal_string(self.byte_count),
            Column::Chars => decimal_string(self.char_count),
            Column::Lines => decimal_string(self.line_count),
            Column::MaxLineLength => decimal_string(self.max_line_length),
            Column::Words => decimal_string(self.word_count),
        }
    }
}

} // verus!
