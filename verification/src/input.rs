//! Where the paths of the files to count come from.
//!
//! Without `--read-from` the paths are the files named on the command line. With it the
//! paths are the lines of a manifest: of standard input where its value is `-`, else of
//! the file that its value names. `--read-from` wins over files named on the command
//! line.
//!
//! The value of `--read-from` is one path: it is not split at commas. A manifest lists
//! one path on each line; an empty line is the empty path.

use crate::args::Args;
use crate::error::WcError;
use crate::lines::{lines_of, next_line};
use crate::text::{text_of_bytes, text_views};
use vstd::prelude::*;
use vstd::slice::slice_subrange;
use vstd::string::StringSliceAdditionalSpecFns;
use vstd::utf8::{decode_utf8, encode_utf8_decode_utf8, valid_utf8};

verus! {

/// The source of the paths.
#[derive(Clone, Debug, PartialEq, Eq)]
pub enum InputSource {
    /// The files named on the command line, in the order given.
    DirectList(Vec<String>),
    /// The lines of standard input.
    IndirectFromStdin,
    /// The lines of the manifest file at this path.
    IndirectFromFileList(String),
}

/// The value of `--read-from` that stands for standard input.
pub open spec fn stdin_marker() -> Seq<char> {
    seq!['-']
}

/// The paths that a manifest names: its lines that are valid UTF-8, in order. A line that
/// is not valid UTF-8 names nothing and is passed over.
pub open spec fn manifest_paths(lines: Seq<Seq<u8>>) -> Seq<Seq<char>>
    decreases lines.len(),
{
    if lines.len() == 0 {
        Seq::empty()
    } else if valid_utf8(lines.last()) {
        manifest_paths(lines.drop_last()).push(decode_utf8(lines.last()))
    } else {
        manifest_paths(lines.drop_last())
    }
}

/// Tells whether `target` stands for standard input.
pub fn is_stdin_marker(target: &str) -> (r: bool)
    ensures
        r == (target@ == stdin_marker()),
{
    let r: bool = target.unicode_len() == 1 && target.get_char(0) == '-';
    assert(r == (target@ =~= stdin_marker()));
    r
}

impl InputSource {
    /// Decides where the paths come from.
    pub fn resolve(args: Args) -> (source: InputSource)
        ensures
            match args.read_from {
                Some(target) => if target@ == stdin_marker() {
                    source is IndirectFromStdin
                } else {
                    source == InputSource::IndirectFromFileList(target)
                },
                None => match args.files {
                    Some(files) => source == InputSource::DirectList(files),
                    None => source matches InputSource::DirectList(files) && files@.len() == 0,
                },
            },
    {
        match args.read_from {
            Some(target) => {
                if is_stdin_marker(target.as_str()) {
                    InputSource::IndirectFromStdin
                } else {
                    InputSource::IndirectFromFileList(target)
                }
            },
            None => match args.files {
                Some(files) => InputSource::DirectList(files),
                None => InputSource::DirectList(Vec::new()),
            },
        }
    }
}

/// The paths that the content of a manifest names, one for each line, in order.
pub fn manifest_entries(content: &[u8]) -> (paths: Vec<String>)
    ensures
        text_views(paths@) == manifest_paths(lines_of(content@)),
{
    let mut paths: Vec<String> = Vec::new();
    let mut start: usize = 0;
    let ghost mut done: Seq<Seq<u8>> = Seq::empty();
    assert(content@.skip(0) =~= content@);
    assert(text_views(paths@) =~= manifest_paths(done));
    while start < content.len()
        invariant
            start <= content.len(),
            lines_of(content@) == done + lines_of(content@.skip(start as int)),
            text_views(paths@) == manifest_paths(done),
        decreases content.len() - start,
    {
        let (end, next) = next_line(content, start);
        let line: &[u8] = slice_subrange(content, start, end);
        let ghost grown = done.push(line@);
        let ghost before = text_views(paths@);
        proof {
            assert(grown.drop_last() =~= done);
            assert(lines_of(content@) =~= grown + lines_of(content@.skip(next as int)));
        }
        match text_of_bytes(line) {
            Some(text) => {
                proof {
                    encode_utf8_decode_utf8(text@);
                }
                paths.push(text.to_owned());
                assert(text_views(paths@) =~= before.push(text@));
            },
            None => {},
        }
        proof {
            done = grown;
        }
        start = next;
    }
    assert(lines_of(content@) =~= done);
    paths
}

/// Turns the outcome of reading a manifest into the list of paths.
///
/// `read` is the manifest's content, or the reason why it could not be opened or read.
/// In that case there is no list of paths, and the failure names the manifest.
pub fn process_input_file(input_file: &str, read: Result<Vec<u8>, String>) -> (outcome: Result<
    Vec<String>,
    WcError,
>)
    ensures
        match read {
            Ok(content) => outcome matches Ok(paths) && text_views(paths@) == manifest_paths(
                lines_of(content@),
            ),
            Err(why) => outcome matches Err(WcError::ManifestResolution { path, reason })
                && path@ == input_file@ && reason@ == why@,
        },
{
    match read {
        Ok(content) => Ok(manifest_entries(content.as_slice())),
        Err(why) => Err(WcError::ManifestResolution { path: input_file.to_owned(), reason: why }),
    }
}

} // verus!
