//! What can go wrong with one file or with the list of files, with the path it concerns.

use vstd::prelude::*;

verus! {

/// A failure, with the offending path as data. Only `message` turns it into text.
#[derive(Clone, Debug, PartialEq, Eq)]
pub enum WcError {
    /// The file could not be opened.
    FileOpen { path: String, reason: String },
    /// Reading the file failed, or one of its lines is not valid UTF-8.
    FileRead { path: String, reason: String },
    /// The manifest that lists the files could not be opened or read.
    ManifestResolution { path: String, reason: String },
    /// The file was counted, but no table cell can be made from its name: it holds
    /// terminal control sequences that are longer than the name is wide.
    NameNotShown { path: String },
}

/// What separates the path from the reason in a message.
pub open spec fn separator_text() -> Seq<char> {
    " - "@
}

/// Why a name is kept out of the table.
pub open spec fn name_not_shown_text() -> Seq<char> {
    "file name cannot be laid out in a table cell"@
}

/// Why a file with a broken line is not counted.
pub open spec fn invalid_utf8_text() -> Seq<char> {
    "stream did not contain valid UTF-8"@
}

impl WcError {
    /// The path that the failure concerns.
    pub open spec fn path_text(self) -> Seq<char> {
        match self {
            WcError::FileOpen { path, .. } => path@,
            WcError::FileRead { path, .. } => path@,
            WcError::ManifestResolution { path, .. } => path@,
            WcError::NameNotShown { path } => path@,
        }
    }

    /// Why it failed.
    pub open spec fn reason_text(self) -> Seq<char> {
        match self {
            WcError::FileOpen { reason, .. } => reason@,
            WcError::FileRead { reason, .. } => reason@,
            WcError::ManifestResolution { reason, .. } => reason@,
            WcError::NameNotShown { .. } => name_not_shown_text(),
        }
    }

    /// The diagnostic line: the path, a separator, the reason.
    pub open spec fn message_text(self) -> Seq<char> {
        self.path_text() + separator_text() + self.reason_text()
    }

    /// The path that the failure concerns.
    pub fn path(&self) -> (path: &String)
        ensures
            path@ == self.path_text(),
    {
        match self {
            WcError::FileOpen { path, .. } => path,
            WcError::FileRead { path, .. } => path,
            WcError::ManifestResolution { path, .. } => path,
            WcError::NameNotShown { path } => path,
        }
    }

    /// The diagnostic line for this failure.
    pub fn message(&self) -> (line: String)
        ensures
            line@ == self.message_text(),
    {
        let mut line: String = self.path().clone();
        line.append(" - ");
        match self {
            WcError::FileOpen { reason, .. } => line.append(reason.as_str()),
            WcError::FileRead { reason, .. } => line.append(reason.as_str()),
            WcError::ManifestResolution { reason, .. } => line.append(reason.as_str()),
            WcError::NameNotShown { .. } => line.append(
                "file name cannot be laid out in a table cell",
            ),
        }
        line
    }
}

} // verus!
