use jwc::args::{Args, Column, FlagArgs};
use jwc::file_stat::FileStat;
use jwc::cell::can_show;
use jwc::table::{create_table, header_texts, process_file_stat, row_texts};
use prettytable::{Row, Table};

fn flag_args_of(
    bytes: bool,
    chars: bool,
    lines: bool,
    max_line_length: bool,
    words: bool,
) -> FlagArgs {
    FlagArgs { bytes, chars, lines, max_line_length, words }
}

fn sample_stat() -> FileStat {
    FileStat {
        file_name: String::from("notes.txt"),
        byte_count: 120,
        char_count: 118,
        line_count: 7,
        max_line_length: 40,
        word_count: 23,
    }
}

fn cells_of(row: &Row) -> Vec<String> {
    row.iter().map(|cell| cell.get_content()).collect()
}

fn rows_of(table: &Table) -> Vec<Vec<String>> {
    table.row_iter().map(cells_of).collect()
}

#[test]
fn flags_are_taken_from_the_arguments() {
    let args = Args {
        bytes: true,
        chars: false,
        lines: true,
        max_line_length: false,
        words: true,
        read_from: None,
        files: Some(vec![String::from("a")]),
    };
    let flag_args = FlagArgs::from(&args);
    assert!(flag_args.bytes);
    assert!(!flag_args.chars);
    assert!(flag_args.lines);
    assert!(!flag_args.max_line_length);
    assert!(flag_args.words);
    assert!(!flag_args.is_default());
}

#[test]
fn no_flag_means_the_default_columns() {
    let none = flag_args_of(false, false, false, false, false);
    assert!(none.is_default());
    assert_eq!(
        none.selected_columns(),
        vec![Column::File, Column::Bytes, Column::Chars, Column::Lines]
    );
    assert_eq!(header_texts(&none), vec!["FILE", "BYTES", "CHARS", "LINES"]);
}

#[test]
fn only_words_gives_two_columns() {
    let only_words = flag_args_of(false, false, false, false, true);
    assert_eq!(only_words.selected_columns(), vec![Column::File, Column::Words]);
    assert_eq!(header_texts(&only_words), vec!["FILE", "WORDS"]);
    assert_eq!(row_texts(&sample_stat(), &only_words), vec!["notes.txt", "23"]);
}

#[test]
fn only_max_line_length_is_no_default() {
    let only_longest = flag_args_of(false, false, false, true, false);
    assert!(!only_longest.is_default());
    assert_eq!(header_texts(&only_longest), vec!["FILE", "MAX LINE LENGTH"]);
    assert_eq!(row_texts(&sample_stat(), &only_longest), vec!["notes.txt", "40"]);
}

#[test]
fn all_columns_stand_in_the_fixed_order() {
    let all = flag_args_of(true, true, true, true, true);
    assert_eq!(
        header_texts(&all),
        vec!["FILE", "BYTES", "CHARS", "LINES", "MAX LINE LENGTH", "WORDS"]
    );
    assert_eq!(row_texts(&sample_stat(), &all), vec!["notes.txt", "120", "118", "7", "40", "23"]);
}

#[test]
fn every_selection_keeps_the_order() {
    let titles = ["BYTES", "CHARS", "LINES", "MAX LINE LENGTH", "WORDS"];
    let values = ["120", "118", "7", "40", "23"];
    for mask in 1u32..32 {
        let wanted = [mask & 1 != 0, mask & 2 != 0, mask & 4 != 0, mask & 8 != 0, mask & 16 != 0];
        let flag_args = flag_args_of(wanted[0], wanted[1], wanted[2], wanted[3], wanted[4]);
        let mut expected_titles = vec![String::from("FILE")];
        let mut expected_values = vec![String::from("notes.txt")];
        for i in 0..5 {
            if wanted[i] {
                expected_titles.push(String::from(titles[i]));
                expected_values.push(String::from(values[i]));
            }
        }
        assert_eq!(header_texts(&flag_args), expected_titles);
        assert_eq!(row_texts(&sample_stat(), &flag_args), expected_values);
    }
}

#[test]
fn column_titles() {
    assert_eq!(Column::File.title(), "FILE");
    assert_eq!(Column::Bytes.title(), "BYTES");
    assert_eq!(Column::Chars.title(), "CHARS");
    assert_eq!(Column::Lines.title(), "LINES");
    assert_eq!(Column::MaxLineLength.title(), "MAX LINE LENGTH");
    assert_eq!(Column::Words.title(), "WORDS");
}

#[test]
fn column_text_of_a_stat() {
    let stat = sample_stat();
    assert_eq!(stat.column_text(Column::File), "notes.txt");
    assert_eq!(stat.column_text(Column::Bytes), "120");
    assert_eq!(stat.column_text(Column::Chars), "118");
    assert_eq!(stat.column_text(Column::Lines), "7");
    assert_eq!(stat.column_text(Column::MaxLineLength), "40");
    assert_eq!(stat.column_text(Column::Words), "23");
}

#[test]
fn new_table_holds_the_header_row() {
    let table = create_table(&flag_args_of(false, false, false, false, false));
    assert_eq!(rows_of(&table), vec![vec!["FILE", "BYTES", "CHARS", "LINES"]]);
    let table = create_table(&flag_args_of(false, false, false, false, true));
    assert_eq!(rows_of(&table), vec![vec!["FILE", "WORDS"]]);
}

#[test]
fn default_header_is_the_row_of_four_titles() {
    let table = create_table(&flag_args_of(false, false, false, false, false));
    let expected = Row::new(vec![
        prettytable::Cell::new("FILE"),
        prettytable::Cell::new("BYTES"),
        prettytable::Cell::new("CHARS"),
        prettytable::Cell::new("LINES"),
    ]);
    assert_eq!(table.len(), 1);
    assert_eq!(table.get_row(0), Some(&expected));
}

#[test]
fn row_of_a_file_holds_name_and_counts() {
    let row = process_file_stat(&sample_stat(), &flag_args_of(false, false, false, false, false));
    assert_eq!(cells_of(&row), vec!["notes.txt", "120", "118", "7"]);
    let row = process_file_stat(&sample_stat(), &flag_args_of(true, false, false, true, true));
    assert_eq!(cells_of(&row), vec!["notes.txt", "120", "40", "23"]);
}

#[test]
fn row_of_zero_counts() {
    let stat = FileStat {
        file_name: String::from("empty"),
        byte_count: 0,
        char_count: 0,
        line_count: 0,
        max_line_length: 0,
        word_count: 0,
    };
    let row = process_file_stat(&stat, &flag_args_of(true, true, true, true, true));
    assert_eq!(cells_of(&row), vec!["empty", "0", "0", "0", "0", "0"]);
}

#[test]
fn can_show_takes_what_a_cell_can_measure() {
    assert!(can_show(""));
    assert!(can_show("plain.txt"));
    assert!(can_show("with [brackets]"));
    assert!(can_show("lone escape \u{1b} here"));
    assert!(can_show("[\u{1b}"));
    assert!(can_show("name\u{1b}["));
    assert!(can_show("\u{1b}[1mx"));
    assert!(can_show("\u{1b}[31mred\u{1b}[0m"));
    assert!(can_show("\u{1b}[1;32mgreen.txt\u{1b}[0m and more"));
    assert!(can_show("two escapes \u{1b}\u{1b}[ then bracket"));
    assert!(can_show("\u{1b}[\u{644}\u{627}"));
    assert!(can_show("\u{1b}[31m\u{644}\u{627}\u{644}\u{627}\u{644}\u{627}"));
    assert!(can_show("first line\n\u{1b}[1msecond\r\nthird"));
}

#[test]
fn can_show_refuses_what_a_cell_cannot_measure() {
    assert!(!can_show("\u{1b}[\u{644}\u{627}\u{644}\u{627}"));
    assert!(!can_show("\u{1b}[31\u{644}\u{627}\u{644}\u{627}\u{644}\u{627}"));
    assert!(!can_show("fine\n\u{1b}[\u{644}\u{627}\u{644}\u{627}\nfine"));
    assert!(!can_show("\u{1b}[\u{17d2}\u{1780}\u{17d2}\u{1780}\u{17d2}\u{1780}"));
}

#[test]
fn coloured_name_gets_its_row() {
    let only_words = flag_args_of(false, false, false, false, true);
    for name in ["\u{1b}[1mx", "\u{1b}[31mred\u{1b}[0m", "a\u{1b}[0;1;4mb\u{1b}[m.txt"] {
        let mut stat = sample_stat();
        stat.file_name = String::from(name);
        assert!(can_show(name));
        let row = process_file_stat(&stat, &only_words);
        assert_eq!(cells_of(&row), vec![name, "23"]);
    }
}

#[test]
fn every_text_that_can_be_shown_makes_a_cell() {
    let pieces = [
        "\u{1b}", "[", "m", "a", " ", "\n", "\r", "\u{644}", "\u{627}", "\u{17d2}", "\u{1780}",
        "\u{200d}", "\u{1f600}", "\u{fe0f}", "\u{65e5}", "\u{301}",
    ];
    let mut state: u64 = 99;
    let mut shown = 0;
    let mut refused = 0;
    for _ in 0..20000 {
        let mut text = String::new();
        state = state.wrapping_mul(6364136223846793005).wrapping_add(1442695040888963407);
        let length = (state >> 33) % 10;
        // Now and then an open control sequence with ligatures in it, which is what a
        // cell cannot measure.
        let open = (state >> 45) % 4 == 0;
        if open {
            text.push_str("\u{1b}[");
        }
        for _ in 0..length {
            state = state.wrapping_mul(6364136223846793005).wrapping_add(1442695040888963407);
            let choice = if open {
                7 + ((state >> 33) % 4) as usize
            } else {
                ((state >> 33) % pieces.len() as u64) as usize
            };
            text.push_str(pieces[choice]);
        }
        if can_show(&text) {
            let expected: Vec<&str> = text.lines().collect();
            assert_eq!(prettytable::Cell::new(&text).get_content(), expected.join("\n"));
            shown += 1;
        } else {
            refused += 1;
        }
    }
    assert!(shown > 10000);
    assert!(refused > 100);
}

#[test]
fn names_with_escapes_but_no_control_sequence_get_a_row() {
    let stat = FileStat {
        file_name: String::from("odd\u{1b}name\u{644}\u{627}\u{644}\u{627}[x]"),
        byte_count: 1,
        char_count: 1,
        line_count: 1,
        max_line_length: 1,
        word_count: 1,
    };
    assert!(can_show(&stat.file_name));
    let row = process_file_stat(&stat, &flag_args_of(false, false, true, false, false));
    assert_eq!(cells_of(&row), vec!["odd\u{1b}name\u{644}\u{627}\u{644}\u{627}[x]", "1"]);
}

fn named(name: &str) -> FileStat {
    FileStat {
        file_name: String::from(name),
        byte_count: 0,
        char_count: 0,
        line_count: 0,
        max_line_length: 0,
        word_count: 0,
    }
}

#[test]
fn name_of_one_line_is_shown_unchanged() {
    let only_lines = flag_args_of(false, false, true, false, false);
    for name in ["", "a", "with space", "trailing return\r", "\rleading", "mid\rdle", "tab\t"] {
        let row = process_file_stat(&named(name), &only_lines);
        assert_eq!(cells_of(&row), vec![name, "0"]);
    }
}

#[test]
fn name_of_several_lines_is_shown_line_by_line() {
    let only_lines = flag_args_of(false, false, true, false, false);
    let row = process_file_stat(&named("two\nlines"), &only_lines);
    assert_eq!(cells_of(&row), vec!["two\nlines", "0"]);
    let row = process_file_stat(&named("ends with a feed\n"), &only_lines);
    assert_eq!(cells_of(&row), vec!["ends with a feed", "0"]);
    let row = process_file_stat(&named("return\r\nand feed"), &only_lines);
    assert_eq!(cells_of(&row), vec!["return\nand feed", "0"]);
}
