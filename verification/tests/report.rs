use jwc::args::FlagArgs;
use jwc::error::WcError;
use jwc::file_stat::FileStat;
use jwc::report::build_report;
use prettytable::Table;

fn default_flags() -> FlagArgs {
    FlagArgs { bytes: false, chars: false, lines: false, max_line_length: false, words: false }
}

fn scan(name: &str, content: &[u8]) -> Result<FileStat, WcError> {
    FileStat::scan(name, content)
}

fn missing(name: &str) -> Result<FileStat, WcError> {
    Err(WcError::FileOpen {
        path: String::from(name),
        reason: String::from("No such file or directory (os error 2)"),
    })
}

fn table_texts(table: &Table) -> Vec<Vec<String>> {
    table
        .row_iter()
        .map(|row| row.iter().map(|cell| cell.get_content()).collect())
        .collect()
}

#[test]
fn rows_follow_the_order_of_the_paths() {
    let results = vec![scan("a", b"1\n"), scan("b", b"1\n2\n"), scan("c", b"1\n2\n3\n")];
    let report = build_report(&default_flags(), &results);
    assert_eq!(
        table_texts(&report.table),
        vec![
            vec!["FILE", "BYTES", "CHARS", "LINES"],
            vec!["a", "1", "1", "1"],
            vec!["b", "2", "2", "2"],
            vec!["c", "3", "3", "3"],
        ]
    );
    assert!(report.diagnostics.is_empty());
}

#[test]
fn failed_file_in_the_middle_leaves_the_others_in_order() {
    let results = vec![scan("a", b"x y\n"), missing("b"), scan("c", b"z\n")];
    let report = build_report(&default_flags(), &results);
    assert_eq!(
        table_texts(&report.table),
        vec![
            vec!["FILE", "BYTES", "CHARS", "LINES"],
            vec!["a", "3", "3", "1"],
            vec!["c", "1", "1", "1"],
        ]
    );
    assert_eq!(report.diagnostics, vec!["b - No such file or directory (os error 2)"]);
}

#[test]
fn two_files_one_missing() {
    let results = vec![scan("here.txt", b"some text\n"), missing("gone.txt")];
    let report = build_report(&default_flags(), &results);
    assert_eq!(report.table.len(), 2);
    assert_eq!(
        table_texts(&report.table)[1],
        vec!["here.txt", "9", "9", "1"]
    );
    assert_eq!(report.diagnostics.len(), 1);
    assert_eq!(report.diagnostics[0], "gone.txt - No such file or directory (os error 2)");
}

#[test]
fn no_file_gives_the_header_alone() {
    let report = build_report(&default_flags(), &Vec::new());
    assert_eq!(table_texts(&report.table), vec![vec!["FILE", "BYTES", "CHARS", "LINES"]]);
    assert!(report.diagnostics.is_empty());
}

#[test]
fn all_files_failed() {
    let results = vec![missing("x"), scan("y", b"\xff"), missing("z")];
    let report = build_report(&default_flags(), &results);
    assert_eq!(report.table.len(), 1);
    assert_eq!(
        report.diagnostics,
        vec![
            "x - No such file or directory (os error 2)",
            "y - stream did not contain valid UTF-8",
            "z - No such file or directory (os error 2)",
        ]
    );
}

#[test]
fn rows_have_the_selected_columns_only() {
    let only_words =
        FlagArgs { bytes: false, chars: false, lines: false, max_line_length: false, words: true };
    let results = vec![scan("a", b"one two three\nfour\n")];
    let report = build_report(&only_words, &results);
    assert_eq!(table_texts(&report.table), vec![vec!["FILE", "WORDS"], vec!["a", "4"]]);
}

#[test]
fn name_that_no_cell_can_hold_gets_a_diagnostic_line() {
    let results = vec![
        scan("first", b"1\n"),
        scan("\u{1b}[\u{644}\u{627}\u{644}\u{627}", b"2\n"),
        scan("last", b"3\n"),
    ];
    let report = build_report(&default_flags(), &results);
    assert_eq!(
        table_texts(&report.table),
        vec![
            vec!["FILE", "BYTES", "CHARS", "LINES"],
            vec!["first", "1", "1", "1"],
            vec!["last", "1", "1", "1"],
        ]
    );
    let mut expected = String::from("\u{1b}[\u{644}\u{627}\u{644}\u{627}");
    expected.push_str(" - file name cannot be laid out in a table cell");
    assert_eq!(report.diagnostics, vec![expected]);
}

#[test]
fn messages_name_the_path() {
    let open = WcError::FileOpen { path: String::from("p"), reason: String::from("denied") };
    let read = WcError::FileRead { path: String::from("q"), reason: String::from("broken") };
    let manifest =
        WcError::ManifestResolution { path: String::from("m"), reason: String::from("gone") };
    let name = WcError::NameNotShown { path: String::from("n") };
    assert_eq!(open.message(), "p - denied");
    assert_eq!(read.message(), "q - broken");
    assert_eq!(manifest.message(), "m - gone");
    assert_eq!(name.message(), "n - file name cannot be laid out in a table cell");
    assert_eq!(open.path(), "p");
    assert_eq!(manifest.path(), "m");
}

#[test]
fn coloured_names_keep_their_rows_in_order() {
    let results = vec![
        scan("\u{1b}[1mx", b"1\n"),
        missing("b"),
        scan("\u{1b}[31mred\u{1b}[0m", b"1\n2\n"),
    ];
    let report = build_report(&default_flags(), &results);
    assert_eq!(
        table_texts(&report.table),
        vec![
            vec!["FILE", "BYTES", "CHARS", "LINES"],
            vec!["\u{1b}[1mx", "1", "1", "1"],
            vec!["\u{1b}[31mred\u{1b}[0m", "2", "2", "2"],
        ]
    );
    assert_eq!(report.diagnostics, vec!["b - No such file or directory (os error 2)"]);
}
