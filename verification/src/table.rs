//! Table rows and tables of `prettytable`, filled with plain texts.

use crate::args::{Column, FlagArgs};
use crate::cell::{
    can_show, cell_accepts, is_plain, lemma_plain_text, lemma_single_line, shown_text,
};
use crate::decimal::{all_digits, lemma_decimal_digits_are_digits};
use crate::file_stat::{FileStat, FileStatView};
use crate::text::text_views;
use prettytable::{Cell, Row, Table};
use vstd::prelude::*;

verus! {

/// `prettytable::Cell`, a table cell that holds a text. Opaque here.
#[verifier::external_type_specification]
#[verifier::external_body]
pub struct ExCell(Cell);

/// `prettytable::Row`, a sequence of cells. Opaque here.
#[verifier::external_type_specification]
#[verifier::external_body]
pub struct ExRow(Row);

/// `prettytable::Table`, a sequence of rows. Opaque here.
#[verifier::external_type_specification]
#[verifier::external_body]
pub struct ExTable(Table);

/// The text that a cell holds, as `Cell::get_content` gives it back.
pub uninterp spec fn cell_text(cell: Cell) -> Seq<char>;

/// The texts of a row's cells, first cell first.
pub uninterp spec fn row_cells(row: Row) -> Seq<Seq<char>>;

/// The rows of a table in the order in which they were added, each as the texts of its
/// cells. The title row that a table may have besides is no part of it.
pub uninterp spec fn table_rows(table: Table) -> Seq<Seq<Seq<char>>>;

/// `prettytable::Cell::new` makes a cell from a text.
///
/// Believed of it: the cell holds the lines of the text, as `str::lines` cuts them; read
/// back, they come joined by line feeds, which is `shown_text`.
///
/// Left out by `requires`: `Cell::new` measures each line, and on each it asserts that
/// the width which `unicode_width` gives is at least the number of characters that it
/// counted inside terminal control sequences. `cell_accepts` says that of every line;
/// `hidden_count` is the count that `Cell::new` keeps.
pub assume_specification[ prettytable::Cell::new ](string: &str) -> (cell: Cell)
    requires
        cell_accepts(string@),
    ensures
        cell_text(cell) == shown_text(string@),
;

/// `prettytable::Row::new` makes a row of the given cells.
///
/// Believed of it: the row holds these cells, in this order.
pub assume_specification[ prettytable::Row::new ](cells: Vec<Cell>) -> (row: Row)
    ensures
        row_cells(row) == cells@.map_values(|cell: Cell| cell_text(cell)),
;

/// `prettytable::Table::new` makes a table.
///
/// Believed of it: the table has no row.
pub assume_specification[ prettytable::Table::new ]() -> (table: Table)
    ensures
        table_rows(table) == Seq::<Seq<Seq<char>>>::empty(),
;

/// `prettytable::Table::add_row` appends a row to a table.
///
/// Believed of it: the rows that were there stay, in their order, and the new row
/// follows them.
#[verifier::external_body]
pub(crate) fn push_row(table: &mut Table, row: Row)
    ensures
        table_rows(*final(table)) == table_rows(*old(table)).push(row_cells(row)),
{
    table.add_row(row);
}

/// The titles are plain texts.
pub proof fn lemma_title_is_plain(column: Column)
    ensures
        is_plain(column.title_text()),
{
    reveal_strlit("FILE");
    reveal_strlit("BYTES");
    reveal_strlit("CHARS");
    reveal_strlit("LINES");
    reveal_strlit("MAX LINE LENGTH");
    reveal_strlit("WORDS");
}

/// What a row says of a count is a plain text.
pub proof fn lemma_count_is_plain(stat: FileStatView, column: Column)
    requires
        column != Column::File,
    ensures
        is_plain(stat.text(column)),
{
    lemma_decimal_digits_are_digits(stat.byte_count);
    lemma_decimal_digits_are_digits(stat.char_count);
    lemma_decimal_digits_are_digits(stat.line_count);
    lemma_decimal_digits_are_digits(stat.max_line_length);
    lemma_decimal_digits_are_digits(stat.word_count);
    assert(all_digits(stat.text(column)));
}

/// The titles of the selected columns, left to right.
pub open spec fn header_titles(flags: FlagArgs) -> Seq<Seq<char>> {
    flags.columns().map_values(|column: Column| column.title_text())
}

/// What a file's row says in the selected columns, left to right.
pub open spec fn stat_texts(stat: FileStatView, flags: FlagArgs) -> Seq<Seq<char>> {
    flags.columns().map_values(|column: Column| stat.text(column))
}

/// The cell that a file's row holds in `column`: the name as the cell keeps it, or a count
/// in decimal.
pub open spec fn stat_cell(stat: FileStatView, column: Column) -> Seq<char> {
    if column == Column::File {
        shown_text(stat.file_name)
    } else {
        stat.text(column)
    }
}

/// The cells of a file's row, left to right.
pub open spec fn stat_cells(stat: FileStatView, flags: FlagArgs) -> Seq<Seq<char>> {
    flags.columns().map_values(|column: Column| stat_cell(stat, column))
}

/// The titles of the selected columns, left to right.
pub fn header_texts(flag_args: &FlagArgs) -> (texts: Vec<String>)
    ensures
        text_views(texts@) == header_titles(*flag_args),
{
    let columns: Vec<Column> = flag_args.selected_columns();
    let mut texts: Vec<String> = Vec::new();
    let mut i: usize = 0;
    while i < columns.len()
        invariant
            i <= columns.len(),
            columns@ == flag_args.columns(),
            texts.len() == i,
            forall|k: int| 0 <= k < i ==> (#[trigger] texts[k])@ == columns[k].title_text(),
        decreases columns.len() - i,
    {
        texts.push(String::from_str(columns[i].title()));
        i = i + 1;
    }
    assert(text_views(texts@) =~= header_titles(*flag_args));
    texts
}

/// What a file's row says in the selected columns, left to right.
pub fn row_texts(file_stat: &FileStat, flag_args: &FlagArgs) -> (texts: Vec<String>)
    ensures
        text_views(texts@) == stat_texts(file_stat@, *flag_args),
{
    let columns: Vec<Column> = flag_args.selected_columns();
    let mut texts: Vec<String> = Vec::new();
    let mut i: usize = 0;
    while i < columns.len()
        invariant
            i <= columns.len(),
            columns@ == flag_args.columns(),
            texts.len() == i,
            forall|k: int|
                0 <= k < i ==> (#[trigger] texts[k])@ == file_stat@.text(columns[k]),
        decreases columns.len() - i,
    {
        texts.push(file_stat.column_text(columns[i]));
        i = i + 1;
    }
    assert(text_views(texts@) =~= stat_texts(file_stat@, *flag_args));
    texts
}

/// Makes a row with one cell for each text.
fn text_row(texts: &Vec<String>) -> (row: Row)
    requires
        forall|i: int| 0 <= i < texts.len() ==> cell_accepts((#[trigger] texts[i])@),
    ensures
        row_cells(row).len() == texts.len(),
        forall|i: int|
            0 <= i < texts.len() ==> #[trigger] row_cells(row)[i] == shown_text(texts[i]@),
{
    let mut cells: Vec<Cell> = Vec::new();
    let mut i: usize = 0;
    while i < texts.len()
        invariant
            i <= texts.len(),
            cells.len() == i,
            forall|k: int| 0 <= k < texts.len() ==> cell_accepts((#[trigger] texts[k])@),
            forall|k: int|
                0 <= k < i ==> cell_text(#[trigger] cells[k]) == shown_text(texts[k]@),
        decreases texts.len() - i,
    {
        cells.push(Cell::new(texts[i].as_str()));
        i = i + 1;
    }
    Row::new(cells)
}

/// Makes the table row of one file: its name, then the selected counts in decimal.
///
/// The name must be one that a cell can be made from; `can_show` tells. The cell keeps a
/// name of one line unchanged, so that the row then holds the very texts of `row_texts`.
pub fn process_file_stat(file_stat: &FileStat, flag_args: &FlagArgs) -> (row: Row)
    requires
        cell_accepts(file_stat.file_name@),
    ensures
        row_cells(row) == stat_cells(file_stat@, *flag_args),
        !file_stat.file_name@.contains('\n') ==> row_cells(row) == stat_texts(
            file_stat@,
            *flag_args,
        ),
{
    let texts: Vec<String> = row_texts(file_stat, flag_args);
    let ghost columns = flag_args.columns();
    proof {
        assert(text_views(texts@).len() == texts.len());
        assert(stat_texts(file_stat@, *flag_args).len() == columns.len());
        assert forall|i: int| 0 <= i < texts.len() implies cell_accepts((#[trigger] texts[i])@)
            && shown_text(texts[i]@) == stat_cell(file_stat@, columns[i]) by {
            assert(texts[i]@ == text_views(texts@)[i]);
            assert(stat_texts(file_stat@, *flag_args)[i] == file_stat@.text(columns[i]));
            if columns[i] != Column::File {
                lemma_count_is_plain(file_stat@, columns[i]);
                lemma_plain_text(texts[i]@);
            }
        }
    }
    let row: Row = text_row(&texts);
    proof {
        assert(row_cells(row) =~= stat_cells(file_stat@, *flag_args));
        if !file_stat.file_name@.contains('\n') {
            lemma_single_line(file_stat.file_name@);
            assert(row_cells(row) =~= stat_texts(file_stat@, *flag_args));
        }
    }
    row
}

/// Makes the table row of one file where a cell can be made from its name, and none
/// where not.
pub fn file_row(file_stat: &FileStat, flag_args: &FlagArgs) -> (row: Option<Row>)
    ensures
        row is Some <==> cell_accepts(file_stat.file_name@),
        row matches Some(r) ==> row_cells(r) == stat_cells(file_stat@, *flag_args),
{
    if can_show(file_stat.file_name.as_str()) {
        Some(process_file_stat(file_stat, flag_args))
    } else {
        None
    }
}

/// The cells of a file's row are its texts wherever the name is of one line.
pub proof fn lemma_cells_are_texts(stat: FileStatView, flags: FlagArgs)
    requires
        !stat.file_name.contains('\n'),
    ensures
        stat_cells(stat, flags) == stat_texts(stat, flags),
{
    lemma_single_line(stat.file_name);
    assert(stat_cells(stat, flags) =~= stat_texts(stat, flags));
}

/// Makes the table with its header row: `FILE`, then the titles of the selected columns.
pub fn create_table(flag_args: &FlagArgs) -> (table: Table)
    ensures
        table_rows(table) == seq![header_titles(*flag_args)],
{
    let texts: Vec<String> = header_texts(flag_args);
    proof {
        let columns = flag_args.columns();
        assert(text_views(texts@).len() == texts.len());
        assert(header_titles(*flag_args).len() == columns.len());
        assert forall|i: int| 0 <= i < texts.len() implies cell_accepts((#[trigger] texts[i])@)
            && shown_text(texts[i]@) == header_titles(*flag_args)[i] by {
            assert(texts[i]@ == text_views(texts@)[i]);
            assert(header_titles(*flag_args)[i] == columns[i].title_text());
            lemma_title_is_plain(columns[i]);
            lemma_plain_text(texts[i]@);
        }
    }
    let row: Row = text_row(&texts);
    assert(row_cells(row) =~= header_titles(*flag_args));
    let mut table: Table = Table::new();
    push_row(&mut table, row);
    assert(table_rows(table) =~= seq![header_titles(*flag_args)]);
    table
}

} // verus!
