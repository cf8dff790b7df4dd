use jwc::args::{Args, FlagArgs};
use jwc::error::WcError;
use jwc::file_stat::FileStat;
use jwc::input::{is_stdin_marker, manifest_entries, process_input_file, InputSource};
use jwc::report::build_report;

fn args(read_from: Option<&str>, files: Option<Vec<&str>>) -> Args {
    Args {
        bytes: false,
        chars: false,
        lines: false,
        max_line_length: false,
        words: false,
        read_from: read_from.map(String::from),
        files: files.map(|names| names.into_iter().map(String::from).collect()),
    }
}

#[test]
fn files_on_the_command_line_are_the_paths() {
    let source = InputSource::resolve(args(None, Some(vec!["a", "b", "c"])));
    assert_eq!(
        source,
        InputSource::DirectList(vec![String::from("a"), String::from("b"), String::from("c")])
    );
}

#[test]
fn no_files_and_no_manifest_is_an_empty_list() {
    assert_eq!(InputSource::resolve(args(None, None)), InputSource::DirectList(Vec::new()));
}

#[test]
fn dash_reads_the_names_from_standard_input() {
    assert_eq!(InputSource::resolve(args(Some("-"), None)), InputSource::IndirectFromStdin);
}

#[test]
fn other_values_name_a_manifest_file() {
    assert_eq!(
        InputSource::resolve(args(Some("list.txt"), None)),
        InputSource::IndirectFromFileList(String::from("list.txt"))
    );
    assert_eq!(
        InputSource::resolve(args(Some("--"), None)),
        InputSource::IndirectFromFileList(String::from("--"))
    );
    assert_eq!(
        InputSource::resolve(args(Some(""), None)),
        InputSource::IndirectFromFileList(String::from(""))
    );
    assert_eq!(
        InputSource::resolve(args(Some("a,b"), None)),
        InputSource::IndirectFromFileList(String::from("a,b"))
    );
}

#[test]
fn read_from_wins_over_files() {
    assert_eq!(
        InputSource::resolve(args(Some("list.txt"), Some(vec!["a", "b"]))),
        InputSource::IndirectFromFileList(String::from("list.txt"))
    );
    assert_eq!(
        InputSource::resolve(args(Some("-"), Some(vec!["a", "b"]))),
        InputSource::IndirectFromStdin
    );
}

#[test]
fn stdin_marker_is_the_single_dash() {
    assert!(is_stdin_marker("-"));
    assert!(!is_stdin_marker(""));
    assert!(!is_stdin_marker("--"));
    assert!(!is_stdin_marker("a"));
    assert!(!is_stdin_marker("\u{2212}"));
}

#[test]
fn manifest_lines_are_paths() {
    assert_eq!(manifest_entries(b"a.txt\nb.txt\n"), vec!["a.txt", "b.txt"]);
    assert_eq!(manifest_entries(b"a.txt\nb.txt"), vec!["a.txt", "b.txt"]);
    assert_eq!(manifest_entries(b"dir/a b.txt\r\nc\r\n"), vec!["dir/a b.txt", "c"]);
    assert_eq!(manifest_entries(b""), Vec::<String>::new());
}

#[test]
fn manifest_keeps_empty_lines_and_passes_over_broken_ones() {
    assert_eq!(manifest_entries(b"a\n\nb\n"), vec!["a", "", "b"]);
    assert_eq!(manifest_entries(b"a\n\xff\xfe\nb\n"), vec!["a", "b"]);
    assert_eq!(manifest_entries("caf\u{e9}.txt\n".as_bytes()), vec!["caf\u{e9}.txt"]);
}

#[test]
fn manifest_that_was_read_gives_its_paths() {
    let outcome = process_input_file("list.txt", Ok(b"one\ntwo\nthree\n".to_vec()));
    assert_eq!(
        outcome,
        Ok(vec![String::from("one"), String::from("two"), String::from("three")])
    );
}

#[test]
fn manifest_that_cannot_be_read_is_a_failure_that_names_it() {
    let outcome =
        process_input_file("list.txt", Err(String::from("No such file or directory (os error 2)")));
    assert_eq!(
        outcome,
        Err(WcError::ManifestResolution {
            path: String::from("list.txt"),
            reason: String::from("No such file or directory (os error 2)"),
        })
    );
    match outcome {
        Err(e) => {
            assert_eq!(e.message(), "list.txt - No such file or directory (os error 2)")
        }
        Ok(_) => unreachable!(),
    }
}

#[test]
fn names_from_standard_input_are_scanned_in_order() {
    let source = InputSource::resolve(args(Some("-"), None));
    assert_eq!(source, InputSource::IndirectFromStdin);
    let standard_input = b"first.txt\nsecond.txt\n".to_vec();
    let paths = match process_input_file("-", Ok(standard_input)) {
        Ok(paths) => paths,
        Err(_) => panic!("no paths"),
    };
    assert_eq!(paths, vec!["first.txt", "second.txt"]);
    let contents: Vec<&[u8]> = vec![b"one line\n", b"two\nlines\n"];
    let results: Vec<Result<FileStat, WcError>> = paths
        .iter()
        .zip(contents)
        .map(|(path, content)| FileStat::scan(path, content))
        .collect();
    let flags = FlagArgs::from(&args(Some("-"), None));
    let report = build_report(&flags, &results);
    let rows: Vec<Vec<String>> = report
        .table
        .row_iter()
        .map(|row| row.iter().map(|cell| cell.get_content()).collect())
        .collect();
    assert_eq!(
        rows,
        vec![
            vec!["FILE", "BYTES", "CHARS", "LINES"],
            vec!["first.txt", "8", "8", "1"],
            vec!["second.txt", "8", "8", "2"],
        ]
    );
    assert!(report.diagnostics.is_empty());
}
