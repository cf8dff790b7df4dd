//! The outcome of a whole run: the table of the files that were counted, and a
//! diagnostic line for each file that was not.

use crate::args::FlagArgs;
use crate::error::{name_not_shown_text, separator_text, WcError};
use crate::file_stat::FileStat;
use crate::cell::cell_accepts;
use crate::table::{create_table, file_row, header_titles, push_row, stat_cells, table_rows};
use crate::text::text_views;
use prettytable::Table;
use vstd::prelude::*;

verus! {

/// What a run prints: first the diagnostic lines, then the table.
pub struct Report {
    /// The header row, then one row for each file that was counted.
    pub table: Table,
    /// One line for each file that was not counted or cannot be shown.
    pub diagnostics: Vec<String>,
}

/// The diagnostic line for a file that was counted, but from whose name no cell can be
/// made.
pub open spec fn name_not_shown_line(name: Seq<char>) -> Seq<char> {
    name + separator_text() + name_not_shown_text()
}

/// The row that one result adds to the table, if any.
pub open spec fn row_of(result: Result<FileStat, WcError>, flags: FlagArgs) -> Option<
    Seq<Seq<char>>,
> {
    match result {
        Ok(stat) => if cell_accepts(stat.file_name@) {
            Some(stat_cells(stat@, flags))
        } else {
            None
        },
        Err(_) => None,
    }
}

/// The diagnostic line that one result adds, if any.
pub open spec fn diagnostic_of(result: Result<FileStat, WcError>) -> Option<Seq<char>> {
    match result {
        Ok(stat) => if cell_accepts(stat.file_name@) {
            None
        } else {
            Some(name_not_shown_line(stat.file_name@))
        },
        Err(e) => Some(e.message_text()),
    }
}

/// The data rows of the table: the rows of the results that have one, in the order of
/// the results.
pub open spec fn data_rows(results: Seq<Result<FileStat, WcError>>, flags: FlagArgs) -> Seq<
    Seq<Seq<char>>,
>
    decreases results.len(),
{
    if results.len() == 0 {
        Seq::empty()
    } else {
        let front = data_rows(results.drop_last(), flags);
        match row_of(results.last(), flags) {
            Some(row) => front.push(row),
            None => front,
        }
    }
}

/// The diagnostic lines: those of the results that have one, in the order of the results.
pub open spec fn diagnostic_lines(results: Seq<Result<FileStat, WcError>>) -> Seq<Seq<char>>
    decreases results.len(),
{
    if results.len() == 0 {
        Seq::empty()
    } else {
        let front = diagnostic_lines(results.drop_last());
        match diagnostic_of(results.last()) {
            Some(line) => front.push(line),
            None => front,
        }
    }
}

/// Gathers the results of all files, given in the order of the paths, into the table and
/// the diagnostic lines.
///
/// A file that was counted gets a row; a file that failed gets a diagnostic line and no
/// row. The one exception is a counted file from whose name no cell can be made, because
/// the measuring of the name fails on its terminal control sequences: it gets a
/// diagnostic line in place of its row.
pub fn build_report(flag_args: &FlagArgs, results: &Vec<Result<FileStat, WcError>>) -> (report:
    Report)
    ensures
        table_rows(report.table) == seq![header_titles(*flag_args)] + data_rows(
            results@,
            *flag_args,
        ),
        text_views(report.diagnostics@) == diagnostic_lines(results@),
{
    let mut table: Table = create_table(flag_args);
    let mut diagnostics: Vec<String> = Vec::new();
    let mut i: usize = 0;
    assert(results@.take(0) =~= Seq::empty());
    assert(text_views(diagnostics@) =~= diagnostic_lines(results@.take(0)));
    while i < results.len()
        invariant
            i <= results.len(),
            table_rows(table) == seq![header_titles(*flag_args)] + data_rows(
                results@.take(i as int),
                *flag_args,
            ),
            text_views(diagnostics@) == diagnostic_lines(results@.take(i as int)),
        decreases results.len() - i,
    {
        let ghost before = text_views(diagnostics@);
        proof {
            assert(results@.take(i + 1).drop_last() =~= results@.take(i as int));
            assert(results@.take(i + 1).last() == results@[i as int]);
        }
        match &results[i] {
            Ok(stat) => match file_row(stat, flag_args) {
                Some(row) => {
                    push_row(&mut table, row);
                },
                None => {
                    let failure = WcError::NameNotShown { path: stat.file_name.clone() };
                    diagnostics.push(failure.message());
                },
            },
            Err(failure) => {
                diagnostics.push(failure.message());
            },
        }
        proof {
            assert(table_rows(table) =~= seq![header_titles(*flag_args)] + data_rows(
                results@.take(i + 1),
                *flag_args,
            ));
            match diagnostic_of(results@[i as int]) {
                Some(line) => {
                    assert(text_views(diagnostics@) =~= before.push(line));
                },
                None => {},
            }
        }
        i = i + 1;
    }
    assert(results@.take(i as int) =~= results@);
    Report { table, diagnostics }
}

} // verus!
