//! The command line's options as plain values, and the selection of output columns.

use vstd::prelude::*;

verus! {

/// What the command line held.
#[derive(Clone, Debug)]
pub struct Args {
    /// Show the byte counts.
    pub bytes: bool,
    /// Show the character counts.
    pub chars: bool,
    /// Show the line counts.
    pub lines: bool,
    /// Show the length of the longest line.
    pub max_line_length: bool,
    /// Show the word counts.
    pub words: bool,
    /// Where to read the names of the files from: `-` for standard input, else the
    /// path of a manifest file.
    pub read_from: Option<String>,
    /// The files named on the command line.
    pub files: Option<Vec<String>>,
}

/// The requested columns, each an independent flag.
#[derive(Clone, Copy, Debug)]
pub struct FlagArgs {
    /// The byte counts were asked for.
    pub bytes: bool,
    /// The character counts were asked for.
    pub chars: bool,
    /// The line counts were asked for.
    pub lines: bool,
    /// The lengths of the longest lines were asked for.
    pub max_line_length: bool,
    /// The word counts were asked for.
    pub words: bool,
}

/// A column of the output table.
#[derive(Clone, Copy, Debug, PartialEq, Eq, Structural)]
pub enum Column {
    /// The name of the file.
    File,
    /// Its bytes.
    Bytes,
    /// Its characters.
    Chars,
    /// Its lines.
    Lines,
    /// The bytes of its longest line.
    MaxLineLength,
    /// Its words.
    Words,
}

impl<'a> From<&'a Args> for FlagArgs {
    fn from(args: &'a Args) -> (flags: FlagArgs) {
        FlagArgs {
            bytes: args.bytes,
            chars: args.chars,
            lines: args.lines,
            max_line_length: args.max_line_length,
            words: args.words,
        }
    }
}

impl<'a> vstd::std_specs::convert::FromSpecImpl<&'a Args> for FlagArgs {
    open spec fn obeys_from_spec() -> bool {
        true
    }

    open spec fn from_spec(args: &'a Args) -> FlagArgs {
        FlagArgs {
            bytes: args.bytes,
            chars: args.chars,
            lines: args.lines,
            max_line_length: args.max_line_length,
            words: args.words,
        }
    }
}

/// `column` alone when `wanted`, else nothing.
pub open spec fn column_if(wanted: bool, column: Column) -> Seq<Column> {
    if wanted {
        seq![column]
    } else {
        Seq::empty()
    }
}

impl Column {
    /// The place of the column in the fixed order, from the left.
    pub open spec fn rank(self) -> nat {
        match self {
            Column::File => 0,
            Column::Bytes => 1,
            Column::Chars => 2,
            Column::Lines => 3,
            Column::MaxLineLength => 4,
            Column::Words => 5,
        }
    }

    /// The title of the column as a sequence of characters.
    pub open spec fn title_text(self) -> Seq<char> {
        match self {
            Column::File => "FILE"@,
            Column::Bytes => "BYTES"@,
            Column::Chars => "CHARS"@,
            Column::Lines => "LINES"@,
            Column::MaxLineLength => "MAX LINE LENGTH"@,
            Column::Words => "WORDS"@,
        }
    }

    /// The title that heads the column.
    pub fn title(self) -> (title: &'static str)
        ensures
            title@ == self.title_text(),
    {
        match self {
            Column::File => "FILE",
            Column::Bytes => "BYTES",
            Column::Chars => "CHARS",
            Column::Lines => "LINES",
            Column::MaxLineLength => "MAX LINE LENGTH",
            Column::Words => "WORDS",
        }
    }
}

impl FlagArgs {
    /// True when no column was asked for, so that the default set is shown.
    pub open spec fn none_requested(self) -> bool {
        !self.bytes && !self.chars && !self.lines && !self.max_line_length && !self.words
    }

    /// The columns of the table, left to right: the file's name, then either the default
    /// set (bytes, characters, lines) when no column was asked for, or the columns asked
    /// for, always in the order bytes, characters, lines, longest line, words.
    pub open spec fn columns(self) -> Seq<Column> {
        if self.none_requested() {
            seq![Column::File, Column::Bytes, Column::Chars, Column::Lines]
        } else {
            seq![Column::File] + column_if(self.bytes, Column::Bytes) + column_if(
                self.chars,
                Column::Chars,
            ) + column_if(self.lines, Column::Lines) + column_if(
                self.max_line_length,
                Column::MaxLineLength,
            ) + column_if(self.words, Column::Words)
        }
    }

    /// Tells whether no column was asked for.
    pub fn is_default(&self) -> (r: bool)
        ensures
            r == self.none_requested(),
    {
        !self.bytes && !self.chars && !self.lines && !self.max_line_length && !self.words
    }

    /// The columns of the table, left to right.
    pub fn selected_columns(&self) -> (columns: Vec<Column>)
        ensures
            columns@ == self.columns(),
    {
        let mut columns: Vec<Column> = Vec::new();
        columns.push(Column::File);
        if self.is_default() {
            columns.push(Column::Bytes);
            columns.push(Column::Chars);
            columns.push(Column::Lines);
        } else {
            if self.bytes {
                columns.push(Column::Bytes);
            }
            if self.chars {
                columns.push(Column::Chars);
            }
            if self.lines {
                columns.push(Column::Lines);
            }
            if self.max_line_length {
                columns.push(Column::MaxLineLength);
            }
            if self.words {
                columns.push(Column::Words);
            }
        }
        assert(columns@ =~= self.columns());
        columns
    }
}

} // verus!
